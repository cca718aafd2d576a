//! File-system paths as text: `/`-separated, as the workspace walker hands
//! them over (no `.` or `..` components, no repeated or trailing `/`).
use vstd::prelude::*;
use crate::split_join::{join_strings, join_with, lemma_split_on_len, split_on, split_text};
use crate::text::{chars_of, concat, concat3, owned, starts_with, str_eq, substring};

verus! {

/// The index of the last `/` in `s`, if any.
pub open spec fn last_slash(s: Seq<char>) -> Option<int> {
    if exists|i: int| 0 <= i < s.len() && s[i] == '/' {
        Some(choose|i: int| 0 <= i < s.len() && s[i] == '/' && forall|j: int| i < j < s.len() ==> s[j] != '/')
    } else {
        None
    }
}

/// The parent of path `p`, as `Path::parent` gives it: none for the empty
/// path and for `/`, `/` for a path directly under the root, the empty
/// path for a single relative component, and otherwise the text before the
/// last `/`.
pub open spec fn path_parent(p: Seq<char>) -> Option<Seq<char>> {
    if p.len() == 0 {
        None
    } else {
        match last_slash(p) {
            None => Some(Seq::empty()),
            Some(i) => if i == 0 {
                if p.len() == 1 {
                    None
                } else {
                    Some(seq!['/'])
                }
            } else {
                Some(p.take(i))
            },
        }
    }
}

/// The last component of path `p`: the text after its last `/`.
pub open spec fn path_file_name(p: Seq<char>) -> Seq<char> {
    match last_slash(p) {
        None => p,
        Some(i) => p.skip(i + 1),
    }
}

/// `b` joined onto `a`, as `Path::join` does: an absolute `b` replaces `a`.
pub open spec fn path_join(a: Seq<char>, b: Seq<char>) -> Seq<char> {
    if b.len() > 0 && b[0] == '/' {
        b
    } else if a.len() == 0 {
        b
    } else if a[a.len() - 1] == '/' {
        a + b
    } else {
        a + seq!['/'] + b
    }
}

/// `p` relative to `root`, as `Path::strip_prefix` gives it: the rest of
/// `p` after the components of `root`, if `p` starts with them (a root
/// written with a final `/`, such as `/` itself, ends at that `/`).
pub open spec fn path_strip_prefix(p: Seq<char>, root: Seq<char>) -> Option<Seq<char>> {
    if root.len() == 0 {
        Some(p)
    } else if p == root {
        Some(Seq::empty())
    } else if root[root.len() - 1] == '/' {
        if root.is_prefix_of(p) {
            Some(p.skip(root.len() as int))
        } else {
            None
        }
    } else if (root + seq!['/']).is_prefix_of(p) {
        Some(p.skip(root.len() as int + 1))
    } else {
        None
    }
}

/// `p` relativized to `root`: `p` without the prefix `root`, or `p` itself
/// when it does not lie under `root`.
pub open spec fn relative_to(p: Seq<char>, root: Seq<char>) -> Seq<char> {
    match path_strip_prefix(p, root) {
        Some(r) => r,
        None => p,
    }
}

/// The last `/` of `cs`, if any.
pub fn find_last_slash(cs: &Vec<char>) -> (r: Option<usize>)
    ensures
        r is None <==> last_slash(cs@) is None,
        r matches Some(i) ==> i < cs@.len() && last_slash(cs@) == Some(i as int),
{
    let mut i: usize = cs.len();
    while i > 0
        invariant
            0 <= i <= cs@.len(),
            forall|j: int| i <= j < cs@.len() ==> cs@[j] != '/',
        decreases i,
    {
        i = i - 1;
        if cs[i] == '/' {
            proof {
                let k = choose|k: int|
                    0 <= k < cs@.len() && cs@[k] == '/' && forall|j: int|
                        k < j < cs@.len() ==> cs@[j] != '/';
                assert(cs@[i as int] == '/');
                assert(k == i) by {
                    if k < i {
                    } else if i < k {
                    }
                }
            }
            return Some(i);
        }
    }
    None
}

/// The parent of path `p`.
pub fn parent_of(p: &str) -> (r: Option<String>)
    ensures
        r.deep_view() == path_parent(p@),
{
    let cs = chars_of(p);
    if cs.len() == 0 {
        return None;
    }
    match find_last_slash(&cs) {
        None => Some(String::new()),
        Some(i) => {
            if i == 0 {
                if cs.len() == 1 {
                    None
                } else {
                    let r = owned("/");
                    proof {
                        reveal_strlit("/");
                    }
                    assert(r@ =~= seq!['/']);
                    Some(r)
                }
            } else {
                let r = substring(&cs, 0, i);
                assert(r@ =~= p@.take(i as int));
                Some(r)
            }
        },
    }
}

/// The last component of path `p`.
pub fn file_name_of(p: &str) -> (r: String)
    ensures
        r@ == path_file_name(p@),
{
    let cs = chars_of(p);
    match find_last_slash(&cs) {
        None => owned(p),
        Some(i) => {
            let r = substring(&cs, i + 1, cs.len());
            assert(r@ =~= p@.skip(i + 1));
            r
        },
    }
}

/// `b` joined onto `a`.
pub fn join(a: &str, b: &str) -> (r: String)
    ensures
        r@ == path_join(a@, b@),
{
    proof {
        reveal_strlit("/");
    }
    let ca = chars_of(a);
    let cb = chars_of(b);
    if cb.len() > 0 && cb[0] == '/' {
        owned(b)
    } else if ca.len() == 0 {
        owned(b)
    } else if ca[ca.len() - 1] == '/' {
        concat(a, b)
    } else {
        let r = concat3(a, "/", b);
        assert(r@ =~= a@ + seq!['/'] + b@);
        r
    }
}

/// `p` relative to `root`, if `p` lies under `root`.
pub fn strip_path_prefix(p: &str, root: &str) -> (r: Option<String>)
    ensures
        r.deep_view() == path_strip_prefix(p@, root@),
{
    proof {
        reveal_strlit("/");
    }
    if root.is_empty() {
        return Some(owned(p));
    }
    if str_eq(p, root) {
        return Some(String::new());
    }
    let ends = crate::text::ends_with(root, "/");
    assert(ends == (root@[root@.len() - 1] == '/')) by {
        reveal_strlit("/");
        if "/"@.is_suffix_of(root@) {
            assert(root@.subrange(root@.len() - 1, root@.len() as int)[0] == root@[root@.len() - 1]);
        } else if root@[root@.len() - 1] == '/' {
            assert(root@.subrange(root@.len() - 1, root@.len() as int) =~= "/"@);
        }
    }
    if ends {
        return crate::text::strip_prefix(p, root);
    }
    let with_slash = concat(root, "/");
    assert(with_slash@ =~= root@ + seq!['/']);
    match crate::text::strip_prefix(p, with_slash.as_str()) {
        Some(rest) => Some(rest),
        None => None,
    }
}

/// `p` relativized to `root`: `p` without the prefix `root`, or `p` itself
/// when it does not lie under `root`.
pub fn relativize_path(p: &str, root: &str) -> (r: String)
    ensures
        r@ == relative_to(p@, root@),
{
    match strip_path_prefix(p, root) {
        Some(rel) => rel,
        None => owned(p),
    }
}

// ── Components ──────────────────────────────────────────────────────────

/// Of the pieces of a path between its `/`s, those that `Path::components`
/// keeps: the first piece, then every later piece that is neither empty
/// nor `.`.
pub open spec fn kept_components(parts: Seq<Seq<char>>) -> Seq<Seq<char>>
    decreases parts.len(),
{
    if parts.len() <= 1 {
        parts
    } else {
        let rest = kept_components(parts.drop_last());
        let c = parts.last();
        if c.len() == 0 || c == "."@ {
            rest
        } else {
            rest.push(c)
        }
    }
}

/// Path `p` written by its components, so that two paths are equal as
/// `Path`s exactly when these texts are equal: no repeated or final `/`,
/// no `.` component after the first, and `/` for the root.
pub open spec fn norm_path(p: Seq<char>) -> Seq<char> {
    let n = join_with(kept_components(split_on(p, '/')), "/"@);
    if n.len() == 0 && p.len() > 0 && p[0] == '/' {
        "/"@
    } else {
        n
    }
}

/// Path `p` written by its components.
pub fn normalize_path(p: &str) -> (r: String)
    ensures
        r@ == norm_path(p@),
{
    proof {
        reveal_strlit(".");
        reveal_strlit("/");
        lemma_split_on_len(p@, '/');
    }
    let parts = split_text(p, '/');
    let ghost ps = parts.deep_view();
    let mut kept: Vec<String> = Vec::new();
    kept.push(parts[0].clone());
    assert(kept.deep_view() =~= kept_components(ps.take(1)));
    let mut i: usize = 1;
    while i < parts.len()
        invariant
            ps == parts.deep_view(),
            1 <= i <= ps.len(),
            kept.deep_view() == kept_components(ps.take(i as int)),
        decreases ps.len() - i,
    {
        assert(ps.take(i + 1).drop_last() =~= ps.take(i as int));
        let c = &parts[i];
        assert(ps.take(i + 1).last() == c@);
        proof {
            reveal_strlit(".");
        }
        if !(c.as_str().is_empty() || str_eq(c.as_str(), ".")) {
            let ghost pk = kept.deep_view();
            kept.push(c.clone());
            assert(kept.deep_view() =~= pk.push(c@));
        }
        i = i + 1;
    }
    assert(ps.take(ps.len() as int) =~= ps);
    let n = join_strings(&kept, "/");
    if n.as_str().is_empty() && starts_with(p, "/") {
        assert(p@.len() > 0 && p@[0] == '/') by {
            assert(p@[0] == "/"@[0]);
        }
        owned("/")
    } else {
        proof {
            if n@.len() == 0 && p@.len() > 0 && p@[0] == '/' {
                assert("/"@ =~= p@.take(1));
            }
        }
        n
    }
}

} // verus!
