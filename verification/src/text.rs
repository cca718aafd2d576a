//! Character-level text operations on paths and names, with their
//! specifications over `Seq<char>`.
use vstd::prelude::*;

verus! {

/// The path separator of Rust module paths, `::`.
pub open spec fn sep() -> Seq<char> {
    seq![':', ':']
}

/// `s` holds the separator `::` starting at index `i`.
pub open spec fn sep_at(s: Seq<char>, i: int) -> bool {
    0 <= i && i + 1 < s.len() && s[i] == ':' && s[i + 1] == ':'
}

/// `s` holds the separator `::` somewhere.
pub open spec fn has_sep(s: Seq<char>) -> bool {
    exists|i: int| sep_at(s, i)
}

/// `i` is the leftmost start of a separator in `s`.
pub open spec fn is_first_sep(s: Seq<char>, i: int) -> bool {
    sep_at(s, i) && forall|j: int| 0 <= j < i ==> !sep_at(s, j)
}

/// `i` is the rightmost start of a separator in `s`.
pub open spec fn is_last_sep(s: Seq<char>, i: int) -> bool {
    sep_at(s, i) && forall|j: int| i < j < s.len() ==> !sep_at(s, j)
}

/// The text before the first `::` of `s` (all of `s` when it has none).
pub open spec fn first_segment(s: Seq<char>) -> Seq<char> {
    if has_sep(s) {
        s.take(choose|i: int| is_first_sep(s, i))
    } else {
        s
    }
}

/// The text after the last `::` of `s` (all of `s` when it has none).
pub open spec fn last_segment(s: Seq<char>) -> Seq<char> {
    if has_sep(s) {
        s.skip((choose|i: int| is_last_sep(s, i)) + 2)
    } else {
        s
    }
}

/// The text before the last `::` of `s`, if `s` has one.
pub open spec fn before_last_sep(s: Seq<char>) -> Option<Seq<char>> {
    if has_sep(s) {
        Some(s.take(choose|i: int| is_last_sep(s, i)))
    } else {
        None
    }
}

/// `a` joined to `b` by `::`.
pub open spec fn join_sep(a: Seq<char>, b: Seq<char>) -> Seq<char> {
    a + sep() + b
}

/// Lexicographic order on character sequences, by code point; this is the
/// order of `str` and `String`.
pub open spec fn seq_lt(a: Seq<char>, b: Seq<char>) -> bool
    decreases a.len(),
{
    if a.len() == 0 {
        b.len() > 0
    } else if b.len() == 0 {
        false
    } else if a[0] != b[0] {
        (a[0] as int) < (b[0] as int)
    } else {
        seq_lt(a.drop_first(), b.drop_first())
    }
}

/// No sequence precedes itself.
pub proof fn lemma_seq_lt_irreflexive(a: Seq<char>)
    ensures
        !seq_lt(a, a),
    decreases a.len(),
{
    if a.len() > 0 {
        lemma_seq_lt_irreflexive(a.drop_first());
    }
}

/// Of two different sequences exactly one precedes the other.
pub proof fn lemma_seq_lt_total(a: Seq<char>, b: Seq<char>)
    ensures
        a != b ==> (seq_lt(a, b) || seq_lt(b, a)),
        !(seq_lt(a, b) && seq_lt(b, a)),
    decreases a.len(),
{
    if a.len() > 0 && b.len() > 0 {
        if a[0] == b[0] {
            lemma_seq_lt_total(a.drop_first(), b.drop_first());
            if a != b {
                assert(a =~= seq![a[0]] + a.drop_first());
                assert(b =~= seq![b[0]] + b.drop_first());
            }
        } else {
        }
    } else if a.len() == 0 && b.len() == 0 {
        assert(a =~= b);
    }
}

/// The order is transitive.
pub proof fn lemma_seq_lt_trans(a: Seq<char>, b: Seq<char>, c: Seq<char>)
    requires
        seq_lt(a, b),
        seq_lt(b, c),
    ensures
        seq_lt(a, c),
    decreases a.len(),
{
    if a.len() > 0 && b.len() > 0 && c.len() > 0 {
        if a[0] == b[0] && b[0] == c[0] {
            lemma_seq_lt_trans(a.drop_first(), b.drop_first(), c.drop_first());
        }
    }
}

/// The characters of `s`, in order.
pub fn chars_of(s: &str) -> (r: Vec<char>)
    ensures
        r@ == s@,
{
    let mut r: Vec<char> = Vec::new();
    for c in it: s.chars()
        invariant
            r@ == it.seq().take(it.index() as int),
            it.seq() == s@,
    {
        r.push(c);
    }
    r
}

/// The string made of the characters of `cs`, collected by std's
/// `String::from_iter`. Trusted, not proved: the string's characters are
/// those of `cs`, in order.
#[verifier::external_body]
pub(crate) fn string_of(cs: &[char]) -> (r: String)
    ensures
        r@ == cs@,
{
    String::from_iter(cs.iter())
}

/// The characters of `cs` from index `from` up to `to`, as a string.
pub fn substring(cs: &Vec<char>, from: usize, to: usize) -> (r: String)
    requires
        from <= to <= cs.len(),
    ensures
        r@ == cs@.subrange(from as int, to as int),
{
    let mut v: Vec<char> = Vec::new();
    let mut i = from;
    while i < to
        invariant
            from <= i <= to <= cs.len(),
            v@ == cs@.subrange(from as int, i as int),
        decreases to - i,
    {
        v.push(cs[i]);
        i = i + 1;
        assert(v@ =~= cs@.subrange(from as int, i as int));
    }
    string_of(v.as_slice())
}

/// An owned copy of `s`.
pub fn owned(s: &str) -> (r: String)
    ensures
        r@ == s@,
{
    s.to_owned()
}

/// `a` followed by `b`.
pub fn concat(a: &str, b: &str) -> (r: String)
    ensures
        r@ == a@ + b@,
{
    let mut r = a.to_owned();
    r.append(b);
    r
}

/// `a`, then `b`, then `c`.
pub fn concat3(a: &str, b: &str, c: &str) -> (r: String)
    ensures
        r@ == a@ + b@ + c@,
{
    let mut r = a.to_owned();
    r.append(b);
    r.append(c);
    r
}

/// `a` joined to `b` by `::`, as `format!("{a}::{b}")` writes it.
pub fn join_path(a: &str, b: &str) -> (r: String)
    ensures
        r@ == join_sep(a@, b@),
{
    let mut r = a.to_owned();
    let s = "::";
    proof {
        reveal_strlit("::");
    }
    r.append(s);
    r.append(b);
    r
}

/// Whether `a` and `b` hold the same text.
pub fn str_eq(a: &str, b: &str) -> (r: bool)
    ensures
        r == (a@ == b@),
{
    let ca = chars_of(a);
    let cb = chars_of(b);
    if ca.len() != cb.len() {
        return false;
    }
    let mut i: usize = 0;
    while i < ca.len()
        invariant
            ca@ == a@,
            cb@ == b@,
            ca.len() == cb.len(),
            0 <= i <= ca.len(),
            forall|j: int| 0 <= j < i ==> ca@[j] == cb@[j],
        decreases ca.len() - i,
    {
        if ca[i] != cb[i] {
            return false;
        }
        i = i + 1;
    }
    assert(a@ =~= b@);
    true
}

/// Whether `a` precedes `b` in the order of `str`.
pub fn str_lt(a: &str, b: &str) -> (r: bool)
    ensures
        r == seq_lt(a@, b@),
{
    let ca = chars_of(a);
    let cb = chars_of(b);
    let mut i: usize = 0;
    assert(a@.skip(0) =~= a@);
    assert(b@.skip(0) =~= b@);
    while i < ca.len() && i < cb.len()
        invariant
            ca@ == a@,
            cb@ == b@,
            0 <= i <= ca.len(),
            i <= cb.len(),
            seq_lt(a@, b@) == seq_lt(a@.skip(i as int), b@.skip(i as int)),
        decreases ca.len() - i,
    {
        if ca[i] != cb[i] {
            let lt = ca[i] < cb[i];
            assert(lt == ((ca@[i as int] as int) < (cb@[i as int] as int)));
            assert(a@.skip(i as int)[0] == ca@[i as int]);
            assert(b@.skip(i as int)[0] == cb@[i as int]);
            return lt;
        }
        assert(a@.skip(i as int).drop_first() =~= a@.skip(i + 1));
        assert(b@.skip(i as int).drop_first() =~= b@.skip(i + 1));
        i = i + 1;
    }
    i == ca.len() && i < cb.len()
}

/// Whether `p` is a prefix of `s`.
pub fn starts_with(s: &str, p: &str) -> (r: bool)
    ensures
        r == p@.is_prefix_of(s@),
{
    let cs = chars_of(s);
    let cp = chars_of(p);
    if cp.len() > cs.len() {
        return false;
    }
    let mut i: usize = 0;
    while i < cp.len()
        invariant
            cs@ == s@,
            cp@ == p@,
            cp.len() <= cs.len(),
            0 <= i <= cp.len(),
            forall|j: int| 0 <= j < i ==> cp@[j] == cs@[j],
        decreases cp.len() - i,
    {
        if cp[i] != cs[i] {
            return false;
        }
        i = i + 1;
    }
    assert(p@ =~= s@.subrange(0, p@.len() as int));
    true
}

/// Whether `p` is a suffix of `s`.
pub fn ends_with(s: &str, p: &str) -> (r: bool)
    ensures
        r == p@.is_suffix_of(s@),
{
    let cs = chars_of(s);
    let cp = chars_of(p);
    if cp.len() > cs.len() {
        return false;
    }
    let off = cs.len() - cp.len();
    let mut i: usize = 0;
    while i < cp.len()
        invariant
            cs@ == s@,
            cp@ == p@,
            cp.len() <= cs.len(),
            off == cs.len() - cp.len(),
            0 <= i <= cp.len(),
            forall|j: int| 0 <= j < i ==> cp@[j] == cs@[off + j],
        decreases cp.len() - i,
    {
        if cp[i] != cs[off + i] {
            return false;
        }
        i = i + 1;
    }
    assert(p@ =~= s@.subrange(off as int, s@.len() as int));
    true
}

/// `s` without its prefix `p`, if `p` is a prefix of `s`.
pub fn strip_prefix(s: &str, p: &str) -> (r: Option<String>)
    ensures
        p@.is_prefix_of(s@) <==> r is Some,
        r matches Some(rest) ==> rest@ == s@.skip(p@.len() as int),
{
    if starts_with(s, p) {
        let cs = chars_of(s);
        let n = chars_of(p).len();
        let rest = substring(&cs, n, cs.len());
        proof {
            assert(cs@.subrange(n as int, cs@.len() as int) =~= s@.skip(n as int));
        }
        Some(rest)
    } else {
        None
    }
}

/// Whether `s` holds the character `c`.
pub fn contains_char(s: &str, c: char) -> (r: bool)
    ensures
        r == s@.contains(c),
{
    let cs = chars_of(s);
    let mut i: usize = 0;
    while i < cs.len()
        invariant
            cs@ == s@,
            0 <= i <= cs.len(),
            forall|j: int| 0 <= j < i ==> cs@[j] != c,
        decreases cs.len() - i,
    {
        if cs[i] == c {
            return true;
        }
        i = i + 1;
    }
    false
}

/// The start of the leftmost `::` in `cs`, if any.
pub fn find_first_sep(cs: &Vec<char>) -> (r: Option<usize>)
    ensures
        r is None <==> !has_sep(cs@),
        r matches Some(i) ==> is_first_sep(cs@, i as int),
{
    let mut i: usize = 0;
    while cs.len() >= 2 && i < cs.len() - 1
        invariant
            0 <= i,
            forall|j: int| 0 <= j < i ==> !sep_at(cs@, j),
        decreases cs.len() - i,
    {
        if cs[i] == ':' && cs[i + 1] == ':' {
            assert(sep_at(cs@, i as int));
            return Some(i);
        }
        i = i + 1;
    }
    assert forall|j: int| !sep_at(cs@, j) by {
        if 0 <= j < i {
        }
    }
    None
}

/// The start of the rightmost `::` in `cs`, if any.
pub fn find_last_sep(cs: &Vec<char>) -> (r: Option<usize>)
    ensures
        r is None <==> !has_sep(cs@),
        r matches Some(i) ==> is_last_sep(cs@, i as int),
{
    if cs.len() < 2 {
        return None;
    }
    let mut i: usize = cs.len() - 1;
    while i > 0
        invariant
            1 <= cs.len(),
            0 <= i < cs.len(),
            forall|j: int| i <= j < cs.len() ==> !sep_at(cs@, j),
        decreases i,
    {
        i = i - 1;
        if cs[i] == ':' && cs[i + 1] == ':' {
            assert(sep_at(cs@, i as int));
            return Some(i);
        }
    }
    None
}

/// The first `::`-separated segment of `s`, as `s.split("::").next()` gives it.
pub fn first_segment_of(s: &str) -> (r: String)
    ensures
        r@ == first_segment(s@),
{
    let cs = chars_of(s);
    match find_first_sep(&cs) {
        Some(i) => {
            proof {
                let k = choose|k: int| is_first_sep(s@, k);
                assert(k == i as int) by {
                    if k < i {
                    } else if i < k {
                    }
                }
            }
            let r = substring(&cs, 0, i);
            proof {
                assert(cs@.subrange(0, i as int) =~= s@.take(i as int));
            }
            r
        },
        None => owned(s),
    }
}

/// The last `::`-separated segment of `s`, as `s.rsplit("::").next()` gives it.
pub fn last_segment_of(s: &str) -> (r: String)
    ensures
        r@ == last_segment(s@),
{
    let cs = chars_of(s);
    match find_last_sep(&cs) {
        Some(i) => {
            proof {
                let k = choose|k: int| is_last_sep(s@, k);
                assert(k == i as int) by {
                    if k < i {
                    } else if i < k {
                    }
                }
            }
            let n = cs.len();
            assert(sep_at(cs@, i as int));
            let r = substring(&cs, i + 2, n);
            proof {
                assert(cs@.subrange(i + 2, cs@.len() as int) =~= s@.skip(i + 2));
            }
            r
        },
        None => owned(s),
    }
}

/// The text before the last `::` of `s`, as `s.rsplit_once("::")` gives its
/// first half.
pub fn before_last_sep_of(s: &str) -> (r: Option<String>)
    ensures
        r is Some <==> before_last_sep(s@) is Some,
        r matches Some(p) ==> p@ == before_last_sep(s@)->0,
{
    let cs = chars_of(s);
    match find_last_sep(&cs) {
        Some(i) => {
            proof {
                let k = choose|k: int| is_last_sep(s@, k);
                assert(k == i as int) by {
                    if k < i {
                    } else if i < k {
                    }
                }
            }
            let r = substring(&cs, 0, i);
            proof {
                assert(cs@.subrange(0, i as int) =~= s@.take(i as int));
            }
            Some(r)
        },
        None => None,
    }
}

/// Whether some string of `v` holds the text `s`.
pub fn vec_contains_text(v: &Vec<String>, s: &str) -> (r: bool)
    ensures
        r == v.deep_view().contains(s@),
{
    let mut i: usize = 0;
    while i < v.len()
        invariant
            0 <= i <= v@.len(),
            forall|j: int| 0 <= j < i ==> v.deep_view()[j] != s@,
        decreases v@.len() - i,
    {
        if str_eq(v[i].as_str(), s) {
            assert(v.deep_view()[i as int] == s@);
            return true;
        }
        i = i + 1;
    }
    false
}

/// Whether `s` holds the separator `::`.
pub fn contains_sep(s: &str) -> (r: bool)
    ensures
        r == has_sep(s@),
{
    let cs = chars_of(s);
    find_first_sep(&cs).is_some()
}

} // verus!
