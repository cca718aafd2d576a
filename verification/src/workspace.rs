//! The workspace around a directory: its root, its member crates, and the
//! entry points of a crate.
//!
//! What these decisions read from disk is handed over as plain values: the
//! manifests of the ancestors of a directory, the expansion of member
//! globs, which member directories are crates, and the source files of a
//! crate.
use vstd::prelude::*;
use crate::module_tree::{SourceEntry, has_source};
use crate::paths::{file_name_of, join, parent_of, path_file_name, path_join, path_parent};
use crate::schema::{CrateType, Error, ErrorView};
use crate::sort::{SortKey, dedup_seq, sort_view_by, stable_sort};
use crate::split_join::{split_on, split_text};
use crate::text::{contains_char, owned, seq_lt, str_eq, str_lt, vec_contains_text};
use crate::cargo_info::{manifest_result, read_manifest};
use crate::paths::{norm_path, normalize_path};
use crate::toml_model::{TomlValue, get, strings_at, strs_at, toml_get};

verus! {

// ── Inputs read from disk ───────────────────────────────────────────────

/// The `Cargo.toml` of a directory: absent, its text, or the message of
/// the error that reading it gave.
#[derive(Debug)]
pub struct ManifestProbe {
    pub dir: String,
    pub manifest: Option<Result<String, String>>,
}

/// A directory that a workspace member names: whether it is a directory
/// holding a `Cargo.toml`.
#[derive(Debug)]
pub struct PathProbe {
    pub path: String,
    pub is_crate_dir: bool,
}

/// What a member entry of the workspace manifest found on disk.
#[derive(Debug)]
pub enum MemberProbe {
    /// The expansion of a glob pattern: the error of the pattern, or each
    /// match (or the error met reading it), in the order of the expansion.
    Glob(Result<Vec<Result<PathProbe, String>>, String>),
    /// The directory of a plain member.
    Plain(PathProbe),
}

/// The probe of the member entry `member`.
#[derive(Debug)]
pub struct MemberReport {
    pub member: String,
    pub probe: MemberProbe,
}

// ── Specification: the workspace root ───────────────────────────────────

/// `p` and each of its ancestors, nearest first, as `Path::ancestors`
/// yields them.
pub open spec fn ancestors_spec(p: Seq<char>) -> Seq<Seq<char>>
    decreases p.len(),
{
    match path_parent(p) {
        Some(q) => if q.len() < p.len() {
            seq![p] + ancestors_spec(q)
        } else {
            seq![p]
        },
        None => seq![p],
    }
}

/// The probe of directory `dir`, the first one for it.
pub open spec fn manifest_of(probes: Seq<ManifestProbe>, dir: Seq<char>) -> Option<
    Option<Result<String, String>>,
>
    decreases probes.len(),
{
    if probes.len() == 0 {
        None
    } else if probes[0].dir@ == dir {
        Some(probes[0].manifest)
    } else {
        manifest_of(probes.drop_first(), dir)
    }
}

/// `s` holds `t` at some position.
pub open spec fn contains_text(s: Seq<char>, t: Seq<char>) -> bool {
    exists|i: int| 0 <= i <= s.len() - t.len() && #[trigger] s.subrange(i, i + t.len()) == t
}

/// The search for the workspace root among `dirs`, in order: the first
/// directory whose manifest mentions `[workspace]`; an error for the first
/// manifest that cannot be read before it.
pub open spec fn root_search(
    dirs: Seq<Seq<char>>,
    probes: Seq<ManifestProbe>,
    start: Seq<char>,
) -> Result<Seq<char>, ErrorView>
    decreases dirs.len(),
{
    if dirs.len() == 0 {
        Err(ErrorView::WorkspaceRootNotFound(start))
    } else {
        match manifest_of(probes, dirs[0]) {
            Some(Some(Ok(content))) => if contains_text(content@, "[workspace]"@) {
                Ok(dirs[0])
            } else {
                root_search(dirs.drop_first(), probes, start)
            },
            Some(Some(Err(m))) => Err(
                ErrorView::FileRead { path: path_join(dirs[0], "Cargo.toml"@), message: m@ },
            ),
            _ => root_search(dirs.drop_first(), probes, start),
        }
    }
}

// ── Specification: members ──────────────────────────────────────────────

/// A member entry is a glob pattern: it holds `*`, `?` or `[`.
pub open spec fn is_glob(member: Seq<char>) -> bool {
    member.contains('*') || member.contains('?') || member.contains('[')
}

/// The report of member `member`, the first one for it.
pub open spec fn report_of(reports: Seq<MemberReport>, member: Seq<char>) -> Option<MemberProbe>
    decreases reports.len(),
{
    if reports.len() == 0 {
        None
    } else if reports[0].member@ == member {
        Some(reports[0].probe)
    } else {
        report_of(reports.drop_first(), member)
    }
}

/// The state of the member search: the directories found and the
/// warnings given, or the error that stopped it.
pub type MemberState = Result<(Seq<Seq<char>>, Seq<Seq<char>>), ErrorView>;

/// The matches of a glob, from index `k` on, after `acc`: each crate
/// directory is kept; a match that could not be read stops the search.
pub open spec fn glob_matches(
    hits: Seq<Result<PathProbe, String>>,
    acc: (Seq<Seq<char>>, Seq<Seq<char>>),
) -> MemberState
    decreases hits.len(),
{
    if hits.len() == 0 {
        Ok(acc)
    } else {
        match hits[0] {
            Err(m) => Err(ErrorView::GlobPattern(m@)),
            Ok(p) => glob_matches(
                hits.drop_first(),
                if p.is_crate_dir {
                    (acc.0.push(p.path@), acc.1)
                } else {
                    acc
                },
            ),
        }
    }
}

/// The warning for a member directory that is not a crate.
pub open spec fn missing_member_warning(path: Seq<char>) -> Seq<char> {
    "warning: workspace member "@ + path + " does not exist"@
}

/// The search over the member entries `members`, in order, after `acc`.
pub open spec fn member_search(
    root: Seq<char>,
    members: Seq<Seq<char>>,
    reports: Seq<MemberReport>,
    acc: (Seq<Seq<char>>, Seq<Seq<char>>),
) -> MemberState
    decreases members.len(),
{
    if members.len() == 0 {
        Ok(acc)
    } else {
        let m = members[0];
        let step: MemberState = if is_glob(m) {
            match report_of(reports, m) {
                Some(MemberProbe::Glob(Err(e))) => Err(ErrorView::GlobPattern(e@)),
                Some(MemberProbe::Glob(Ok(hits))) => glob_matches(hits@, acc),
                _ => Ok(acc),
            }
        } else {
            let path = path_join(root, m);
            match report_of(reports, m) {
                Some(MemberProbe::Plain(p)) => if p.is_crate_dir {
                    Ok((acc.0.push(path), acc.1))
                } else {
                    Ok((acc.0, acc.1.push(missing_member_warning(path))))
                },
                _ => Ok((acc.0, acc.1.push(missing_member_warning(path)))),
            }
        };
        match step {
            Ok(next) => member_search(root, members.drop_first(), reports, next),
            Err(e) => Err(e),
        }
    }
}

/// The paths of `dirs`, each written by its components, whose last
/// component is not among `exclude`.
pub open spec fn keep_not_excluded(dirs: Seq<Seq<char>>, exclude: Seq<Seq<char>>) -> Seq<Seq<char>>
    decreases dirs.len(),
{
    if dirs.len() == 0 {
        Seq::empty()
    } else {
        let rest = keep_not_excluded(dirs.drop_last(), exclude);
        let d = norm_path(dirs.last());
        if exclude.contains(path_file_name(d)) {
            rest
        } else {
            rest.push(d)
        }
    }
}

/// The order of paths, component by component, as `Path` orders them.
pub open spec fn components_lt(a: Seq<Seq<char>>, b: Seq<Seq<char>>) -> bool
    decreases a.len(),
{
    if a.len() == 0 {
        b.len() > 0
    } else if b.len() == 0 {
        false
    } else if a[0] != b[0] {
        seq_lt(a[0], b[0])
    } else {
        components_lt(a.drop_first(), b.drop_first())
    }
}

/// The order of paths.
pub open spec fn path_lt(a: Seq<char>, b: Seq<char>) -> bool {
    components_lt(split_on(a, '/'), split_on(b, '/'))
}

/// A member directory, ordered as a path.
#[derive(Debug)]
pub struct MemberDir(pub String);

impl SortKey for MemberDir {
    open spec fn key_lt(&self, other: &Self) -> bool {
        path_lt(self.0@, other.0@)
    }

    fn key_before(&self, other: &Self) -> (r: bool) {
        path_before(self.0.as_str(), other.0.as_str())
    }
}

impl DeepView for MemberDir {
    type V = Seq<char>;

    open spec fn deep_view(&self) -> Seq<char> {
        self.0@
    }
}

/// The order of paths, as a relation on texts.
pub open spec fn path_order() -> spec_fn(Seq<char>, Seq<char>) -> bool {
    |a: Seq<char>, b: Seq<char>| path_lt(a, b)
}

/// The member directories of the workspace at `root` with manifest `doc`:
/// the crate directories that its `members` entries name (globs expanded)
/// without those whose last component its `exclude` entries name, sorted
/// as paths, without repeats; and a warning for each plain member that is
/// not a crate directory. Fails when `doc` has no `[workspace]` table, or a
/// glob cannot be expanded.
pub open spec fn members_spec(root: Seq<char>, doc: TomlValue, reports: Seq<MemberReport>) -> Result<
    (Seq<Seq<char>>, Seq<Seq<char>>),
    ErrorView,
> {
    match toml_get(doc, "workspace"@) {
        None => Err(ErrorView::MissingWorkspaceSection),
        Some(ws) => match member_search(
            root,
            strs_at(ws, "members"@),
            reports,
            (Seq::empty(), Seq::empty()),
        ) {
            Err(e) => Err(e),
            Ok(found) => Ok(
                (
                    dedup_seq(
                        sort_view_by(
                            keep_not_excluded(found.0, strs_at(ws, "exclude"@)),
                            path_order(),
                        ),
                    ),
                    found.1,
                ),
            ),
        },
    }
}

/// The entry points of the crate in `crate_dir`: `src/lib.rs` (a library)
/// and `src/main.rs` (a binary), those that exist, in that order.
pub open spec fn crate_roots_spec(sources: Seq<SourceEntry>, crate_dir: Seq<char>) -> Seq<
    (Seq<char>, CrateType),
> {
    let lib_rs = path_join(path_join(crate_dir, "src"@), "lib.rs"@);
    let main_rs = path_join(path_join(crate_dir, "src"@), "main.rs"@);
    let a: Seq<(Seq<char>, CrateType)> = if has_source(sources, lib_rs) {
        seq![(lib_rs, CrateType::Lib)]
    } else {
        Seq::empty()
    };
    if has_source(sources, main_rs) {
        a.push((main_rs, CrateType::Bin))
    } else {
        a
    }
}

// ── Implementation ──────────────────────────────────────────────────────

proof fn lemma_last_slash_exists(s: Seq<char>)
    requires
        exists|i: int| 0 <= i < s.len() && s[i] == '/',
    ensures
        exists|i: int|
            0 <= i < s.len() && s[i] == '/' && forall|j: int| i < j < s.len() ==> s[j] != '/',
    decreases s.len(),
{
    if s.last() == '/' {
        assert(s[s.len() - 1] == '/');
    } else {
        let k = choose|i: int| 0 <= i < s.len() && s[i] == '/';
        let t = s.drop_last();
        assert(t[k] == '/');
        lemma_last_slash_exists(t);
        let i = choose|i: int|
            0 <= i < t.len() && t[i] == '/' && forall|j: int| i < j < t.len() ==> t[j] != '/';
        assert(s[i] == '/');
        assert forall|j: int| i < j < s.len() implies s[j] != '/' by {
            if j < t.len() {
                assert(t[j] == s[j]);
            }
        }
    }
}

proof fn lemma_parent_shorter(p: Seq<char>)
    ensures
        path_parent(p) matches Some(q) ==> q.len() < p.len(),
{
    if exists|i: int| 0 <= i < p.len() && p[i] == '/' {
        lemma_last_slash_exists(p);
    }
}

/// `p` and each of its ancestors, nearest first.
pub fn ancestors(p: &str) -> (r: Vec<String>)
    ensures
        r.deep_view() == ancestors_spec(p@),
{
    let mut r: Vec<String> = Vec::new();
    let mut cur = owned(p);
    let ghost total = ancestors_spec(p@);
    assert(total =~= Seq::<Seq<char>>::empty() + ancestors_spec(cur@));
    loop
        invariant
            total == ancestors_spec(p@),
            total == r.deep_view() + ancestors_spec(cur@),
        decreases cur@.len(),
    {
        let ghost prev = r.deep_view();
        let next = parent_of(cur.as_str());
        let c = cur.clone();
        r.push(c);
        assert(r.deep_view() =~= prev.push(cur@));
        proof {
            lemma_parent_shorter(cur@);
        }
        match next {
            Some(q) => {
                assert(ancestors_spec(cur@) =~= seq![cur@] + ancestors_spec(q@));
                assert(total =~= r.deep_view() + ancestors_spec(q@));
                cur = q;
            },
            None => {
                assert(total =~= r.deep_view());
                return r;
            },
        }
    }
}

/// The length of the longest prefix of `ct` that `cs` holds at `i`.
fn matched_prefix(cs: &Vec<char>, ct: &Vec<char>, i: usize) -> (j: usize)
    requires
        i + ct@.len() <= cs@.len(),
    ensures
        j <= ct@.len(),
        forall|m: int| 0 <= m < j ==> cs@[i + m] == ct@[m],
        j < ct@.len() ==> cs@[i + j] != ct@[j as int],
{
    let n: usize = cs.len();
    let mut j: usize = 0;
    while j < ct.len()
        invariant
            n == cs@.len(),
            i + ct@.len() <= cs@.len(),
            0 <= j <= ct@.len(),
            forall|m: int| 0 <= m < j ==> cs@[i + m] == ct@[m],
        decreases ct@.len() - j,
    {
        if cs[i + j] != ct[j] {
            return j;
        }
        j = j + 1;
    }
    j
}

/// Whether `s` holds `t` at some position.
fn text_contains(s: &str, t: &str) -> (r: bool)
    ensures
        r == contains_text(s@, t@),
{
    let cs = crate::text::chars_of(s);
    let ct = crate::text::chars_of(t);
    if ct.len() > cs.len() {
        proof {
            assert forall|i: int| 0 <= i <= s@.len() - t@.len() implies #[trigger] s@.subrange(
                i,
                i + t@.len(),
            ) != t@ by {
            }
        }
        return false;
    }
    let mut i: usize = 0;
    while i <= cs.len() - ct.len()
        invariant
            cs@ == s@,
            ct@ == t@,
            ct@.len() <= cs@.len(),
            0 <= i <= cs@.len() - ct@.len() + 1,
            forall|k: int| 0 <= k < i ==> #[trigger] s@.subrange(k, k + t@.len()) != t@,
        decreases cs@.len() - i,
    {
        let j = matched_prefix(&cs, &ct, i);
        if j == ct.len() {
            assert(s@.subrange(i as int, i + t@.len()) =~= t@);
            return true;
        }
        assert(s@.subrange(i as int, i + t@.len())[j as int] != t@[j as int]);
        i = i + 1;
    }
    false
}

/// The probe of directory `dir`.
fn lookup_manifest<'a>(probes: &'a Vec<ManifestProbe>, dir: &str) -> (r: Option<&'a ManifestProbe>)
    ensures
        match r {
            Some(p) => manifest_of(probes@, dir@) == Some(p.manifest),
            None => manifest_of(probes@, dir@) is None,
        },
{
    let mut i: usize = 0;
    assert(probes@.skip(0) =~= probes@);
    while i < probes.len()
        invariant
            0 <= i <= probes@.len(),
            manifest_of(probes@, dir@) == manifest_of(probes@.skip(i as int), dir@),
        decreases probes@.len() - i,
    {
        assert(probes@.skip(i as int)[0] == probes@[i as int]);
        if str_eq(probes[i].dir.as_str(), dir) {
            return Some(&probes[i]);
        }
        assert(probes@.skip(i as int).drop_first() =~= probes@.skip(i + 1));
        i = i + 1;
    }
    assert(probes@.skip(i as int) =~= Seq::<ManifestProbe>::empty());
    None
}

/// Walk up from `start_path` to the nearest directory whose `Cargo.toml`
/// mentions `[workspace]`, given the manifests of the ancestors.
///
/// Fails with `WorkspaceRootNotFound` if no ancestor has such a manifest,
/// and with `FileRead` if a manifest met on the way cannot be read.
pub fn find_workspace_root(start_path: &str, probes: &Vec<ManifestProbe>) -> (r: Result<
    String,
    Error,
>)
    ensures
        match root_search(ancestors_spec(start_path@), probes@, start_path@) {
            Ok(d) => r matches Ok(s) && s@ == d,
            Err(e) => r matches Err(x) && x.deep_view() == e,
        },
{
    let dirs = ancestors(start_path);
    let ghost ds = dirs.deep_view();
    let mut i: usize = 0;
    assert(ds.skip(0) =~= ds);
    while i < dirs.len()
        invariant
            ds == dirs.deep_view(),
            ds == ancestors_spec(start_path@),
            0 <= i <= ds.len(),
            root_search(ds, probes@, start_path@) == root_search(ds.skip(i as int), probes@, start_path@),
        decreases ds.len() - i,
    {
        let dir = &dirs[i];
        assert(ds.skip(i as int)[0] == dir@);
        assert(ds.skip(i as int).drop_first() =~= ds.skip(i + 1));
        match lookup_manifest(probes, dir.as_str()) {
            Some(p) => match &p.manifest {
                Some(Ok(content)) => {
                    if text_contains(content.as_str(), "[workspace]") {
                        return Ok(dir.clone());
                    }
                },
                Some(Err(m)) => {
                    return Err(
                        Error::FileRead { path: join(dir.as_str(), "Cargo.toml"), message: m.clone() },
                    );
                },
                None => {},
            },
            None => {},
        }
        i = i + 1;
    }
    assert(ds.skip(i as int) =~= Seq::<Seq<char>>::empty());
    Err(Error::WorkspaceRootNotFound(owned(start_path)))
}

/// Whether member entry `member` is a glob pattern.
pub fn has_glob(member: &str) -> (r: bool)
    ensures
        r == is_glob(member@),
{
    contains_char(member, '*') || contains_char(member, '?') || contains_char(member, '[')
}

/// The report of member `member`.
fn lookup_report<'a>(reports: &'a Vec<MemberReport>, member: &str) -> (r: Option<&'a MemberProbe>)
    ensures
        match r {
            Some(p) => report_of(reports@, member@) == Some(*p),
            None => report_of(reports@, member@) is None,
        },
{
    let mut i: usize = 0;
    assert(reports@.skip(0) =~= reports@);
    while i < reports.len()
        invariant
            0 <= i <= reports@.len(),
            report_of(reports@, member@) == report_of(reports@.skip(i as int), member@),
        decreases reports@.len() - i,
    {
        assert(reports@.skip(i as int)[0] == reports@[i as int]);
        if str_eq(reports[i].member.as_str(), member) {
            return Some(&reports[i].probe);
        }
        assert(reports@.skip(i as int).drop_first() =~= reports@.skip(i + 1));
        i = i + 1;
    }
    assert(reports@.skip(i as int) =~= Seq::<MemberReport>::empty());
    None
}

/// Whether path `a` comes before path `b`, component by component.
fn path_before(a: &str, b: &str) -> (r: bool)
    ensures
        r == path_lt(a@, b@),
{
    let ca = split_text(a, '/');
    let cb = split_text(b, '/');
    let ghost sa = ca.deep_view();
    let ghost sb = cb.deep_view();
    let mut i: usize = 0;
    assert(sa.skip(0) =~= sa);
    assert(sb.skip(0) =~= sb);
    while i < ca.len() && i < cb.len()
        invariant
            sa == ca.deep_view(),
            sb == cb.deep_view(),
            sa == split_on(a@, '/'),
            sb == split_on(b@, '/'),
            0 <= i <= sa.len(),
            0 <= i <= sb.len(),
            components_lt(sa, sb) == components_lt(sa.skip(i as int), sb.skip(i as int)),
        decreases sa.len() - i,
    {
        assert(sa.skip(i as int)[0] == ca@[i as int]@);
        assert(sb.skip(i as int)[0] == cb@[i as int]@);
        if !str_eq(ca[i].as_str(), cb[i].as_str()) {
            assert(components_lt(sa.skip(i as int), sb.skip(i as int)) == seq_lt(
                ca@[i as int]@,
                cb@[i as int]@,
            ));
            return str_lt(ca[i].as_str(), cb[i].as_str());
        }
        assert(sa.skip(i as int).drop_first() =~= sa.skip(i + 1));
        assert(sb.skip(i as int).drop_first() =~= sb.skip(i + 1));
        i = i + 1;
    }
    if i == ca.len() {
        assert(sa.skip(i as int).len() == 0);
    } else {
        assert(sb.skip(i as int).len() == 0);
    }
    i == ca.len() && i < cb.len()
}

/// The member entries, as written, of the workspace manifest at `root`,
/// from the outcome of reading it; none when it gives no document or has
/// no `[workspace]` table.
pub fn manifest_members(root: &str, manifest: &Result<String, String>) -> (r: Vec<String>)
    ensures
        r.deep_view() == match manifest_result(path_join(root@, "Cargo.toml"@), *manifest) {
            Ok(doc) => match toml_get(doc, "workspace"@) {
                Some(ws) => strs_at(ws, "members"@),
                None => Seq::empty(),
            },
            Err(_) => Seq::empty(),
        },
{
    let cargo_toml_path = join(root, "Cargo.toml");
    match read_manifest(cargo_toml_path.as_str(), manifest) {
        Ok(doc) => match get(&doc, "workspace") {
            Some(ws) => strings_at(ws, "members"),
            None => {
                let v: Vec<String> = Vec::new();
                assert(v.deep_view() =~= Seq::<Seq<char>>::empty());
                v
            },
        },
        Err(_) => {
            let v: Vec<String> = Vec::new();
            assert(v.deep_view() =~= Seq::<Seq<char>>::empty());
            v
        },
    }
}

/// Parse the workspace `Cargo.toml` at `root` from the outcome of reading
/// it (its text, or the message of the read error), then find its members
/// as `members_of_document` does.
///
/// Fails with `FileRead` or `TomlParse` when the manifest gave no document,
/// and otherwise as `members_of_document`.
pub fn enumerate_members(
    root: &str,
    manifest: &Result<String, String>,
    reports: &Vec<MemberReport>,
) -> (r: Result<(Vec<String>, Vec<String>), Error>)
    ensures
        match manifest_result(path_join(root@, "Cargo.toml"@), *manifest) {
            Err(e) => r matches Err(x) && x.deep_view() == e,
            Ok(doc) => match members_spec(root@, doc, reports@) {
                Ok((dirs, warnings)) => r matches Ok((d, w)) && d.deep_view() == dirs
                    && w.deep_view() == warnings,
                Err(e) => r matches Err(x) && x.deep_view() == e,
            },
        },
{
    let cargo_toml_path = join(root, "Cargo.toml");
    match read_manifest(cargo_toml_path.as_str(), manifest) {
        Ok(doc) => members_of_document(root, &doc, reports),
        Err(e) => Err(e),
    }
}

/// The members of the workspace whose manifest at `root` holds `doc`:
/// resolve member paths (glob patterns expanded as `reports` gives them),
/// apply the `exclude` list, and return the member crate directories, each
/// written by its components, sorted as paths without repeats, with a
/// warning for each plain member that is not a crate directory.
///
/// Fails with `MissingWorkspaceSection` when `doc` has no `[workspace]`
/// table, and with `GlobPattern` when a member glob cannot be expanded.
pub fn members_of_document(
    root: &str,
    doc: &TomlValue,
    reports: &Vec<MemberReport>,
) -> (r: Result<(Vec<String>, Vec<String>), Error>)
    ensures
        match members_spec(root@, *doc, reports@) {
            Ok((dirs, warnings)) => r matches Ok((d, w)) && d.deep_view() == dirs
                && w.deep_view() == warnings,
            Err(e) => r matches Err(x) && x.deep_view() == e,
        },
{
    let ws = match get(doc, "workspace") {
        None => {
            return Err(Error::MissingWorkspaceSection);
        },
        Some(ws) => ws,
    };
    let members = strings_at(ws, "members");
    let exclude = strings_at(ws, "exclude");
    let ghost ms = members.deep_view();
    let mut found: Vec<String> = Vec::new();
    let mut warnings: Vec<String> = Vec::new();
    let mut i: usize = 0;
    assert(ms.skip(0) =~= ms);
    assert(found.deep_view() =~= Seq::<Seq<char>>::empty());
    assert(warnings.deep_view() =~= Seq::<Seq<char>>::empty());
    while i < members.len()
        invariant
            ms == members.deep_view(),
            toml_get(*doc, "workspace"@) == Some(*ws),
            ms == strs_at(*ws, "members"@),
            exclude.deep_view() == strs_at(*ws, "exclude"@),
            0 <= i <= ms.len(),
            member_search(root@, ms, reports@, (Seq::empty(), Seq::empty())) == member_search(
                root@,
                ms.skip(i as int),
                reports@,
                (found.deep_view(), warnings.deep_view()),
            ),
        decreases ms.len() - i,
    {
        let member = &members[i];
        assert(ms.skip(i as int)[0] == member@);
        assert(ms.skip(i as int).drop_first() =~= ms.skip(i + 1));
        let ghost f0 = found.deep_view();
        let ghost w0 = warnings.deep_view();
        if has_glob(member.as_str()) {
            match lookup_report(reports, member.as_str()) {
                Some(MemberProbe::Glob(Err(e))) => {
                    return Err(Error::GlobPattern(e.clone()));
                },
                Some(MemberProbe::Glob(Ok(hits))) => {
                    let mut k: usize = 0;
                    assert(hits@.skip(0) =~= hits@);
                    let ghost whole = member_search(root@, ms, reports@, (Seq::empty(), Seq::empty()));
                    assert(whole == match glob_matches(hits@, (f0, w0)) {
                        Ok(next) => member_search(root@, ms.skip(i + 1), reports@, next),
                        Err(e) => Err(e),
                    });
                    while k < hits.len()
                        invariant
                            toml_get(*doc, "workspace"@) == Some(*ws),
                            ms == strs_at(*ws, "members"@),
                            whole == member_search(root@, ms, reports@, (Seq::empty(), Seq::empty())),
                            whole == match glob_matches(hits@, (f0, w0)) {
                                Ok(next) => member_search(root@, ms.skip(i + 1), reports@, next),
                                Err(e) => Err(e),
                            },
                            0 <= k <= hits@.len(),
                            glob_matches(hits@, (f0, w0)) == glob_matches(
                                hits@.skip(k as int),
                                (found.deep_view(), warnings.deep_view()),
                            ),
                        decreases hits@.len() - k,
                    {
                        assert(hits@.skip(k as int)[0] == hits@[k as int]);
                        assert(hits@.skip(k as int).drop_first() =~= hits@.skip(k + 1));
                        match &hits[k] {
                            Err(m) => {
                                return Err(Error::GlobPattern(m.clone()));
                            },
                            Ok(p) => {
                                if p.is_crate_dir {
                                    let ghost pf = found.deep_view();
                                    found.push(p.path.clone());
                                    assert(found.deep_view() =~= pf.push(p.path@));
                                }
                            },
                        }
                        k = k + 1;
                    }
                    assert(hits@.skip(k as int) =~= Seq::<Result<PathProbe, String>>::empty());
                },
                _ => {},
            }
        } else {
            let path = join(root, member.as_str());
            let is_crate = match lookup_report(reports, member.as_str()) {
                Some(MemberProbe::Plain(p)) => p.is_crate_dir,
                _ => false,
            };
            if is_crate {
                found.push(path);
                assert(found.deep_view() =~= f0.push(path@));
            } else {
                let mut w = owned("warning: workspace member ");
                w.append(path.as_str());
                w.append(" does not exist");
                warnings.push(w);
                assert(warnings.deep_view() =~= w0.push(missing_member_warning(path@)));
            }
        }
        i = i + 1;
    }
    assert(ms.skip(i as int) =~= Seq::<Seq<char>>::empty());
    let ghost fv = found.deep_view();
    let mut kept: Vec<MemberDir> = Vec::new();
    let mut j: usize = 0;
    assert(fv.take(0) =~= Seq::<Seq<char>>::empty());
    while j < found.len()
        invariant
            fv == found.deep_view(),
            exclude.deep_view() == strs_at(*ws, "exclude"@),
            0 <= j <= fv.len(),
            crate::sort::views_of(kept@) == keep_not_excluded(fv.take(j as int), exclude.deep_view()),
        decreases fv.len() - j,
    {
        assert(fv.take(j + 1).drop_last() =~= fv.take(j as int));
        assert(fv.take(j + 1).last() == found@[j as int]@);
        let norm = normalize_path(found[j].as_str());
        let name = file_name_of(norm.as_str());
        if !vec_contains_text(&exclude, name.as_str()) {
            let ghost pk = kept@;
            let d = MemberDir(norm);
            kept.push(d);
            assert(crate::sort::views_of(kept@) =~= crate::sort::views_of(pk).push(d.deep_view()));
        }
        j = j + 1;
    }
    assert(fv.take(fv.len() as int) =~= fv);
    proof {
        crate::sort::lemma_sort_views(kept@, path_order());
    }
    let sorted = stable_sort(kept);
    let mut texts: Vec<String> = Vec::new();
    let mut k: usize = 0;
    while k < sorted.len()
        invariant
            0 <= k <= sorted@.len(),
            texts.deep_view() == crate::sort::views_of(sorted@).take(k as int),
        decreases sorted@.len() - k,
    {
        let ghost pt = texts.deep_view();
        let c = sorted[k].0.clone();
        texts.push(c);
        assert(texts.deep_view() =~= pt.push(c@));
        assert(crate::sort::views_of(sorted@).take(k + 1) =~= crate::sort::views_of(sorted@).take(
            k as int,
        ).push(sorted@[k as int].deep_view()));
        k = k + 1;
    }
    assert(crate::sort::views_of(sorted@).take(sorted@.len() as int) =~= crate::sort::views_of(
        sorted@,
    ));
    let dirs = crate::sort::dedup_texts(texts);
    Ok((dirs, warnings))
}

/// The entry points of the crate in `crate_dir`: `src/lib.rs` as a
/// library and `src/main.rs` as a binary, those that exist, in that order.
pub fn resolve_crate_roots(crate_dir: &str, sources: &Vec<SourceEntry>) -> (r: Vec<(String, CrateType)>)
    ensures
        r@.map_values(|x: (String, CrateType)| (x.0@, x.1)) == crate_roots_spec(sources@, crate_dir@),
{
    let mut roots: Vec<(String, CrateType)> = Vec::new();
    let src = join(crate_dir, "src");
    let lib_rs = join(src.as_str(), "lib.rs");
    let main_rs = join(src.as_str(), "main.rs");
    let ghost want = crate_roots_spec(sources@, crate_dir@);
    if crate::module_tree::source_exists(sources, lib_rs.as_str()) {
        roots.push((lib_rs, CrateType::Lib));
    }
    if crate::module_tree::source_exists(sources, main_rs.as_str()) {
        roots.push((main_rs, CrateType::Bin));
    }
    assert(roots@.map_values(|x: (String, CrateType)| (x.0@, x.1)) =~= want);
    roots
}

// ── Laws ────────────────────────────────────────────────────────────────

proof fn lemma_components_asym(a: Seq<Seq<char>>, b: Seq<Seq<char>>)
    ensures
        components_lt(a, b) ==> !components_lt(b, a),
    decreases a.len(),
{
    if a.len() > 0 && b.len() > 0 {
        if a[0] != b[0] {
            crate::text::lemma_seq_lt_total(a[0], b[0]);
        } else {
            lemma_components_asym(a.drop_first(), b.drop_first());
        }
    }
}

proof fn lemma_components_trans(a: Seq<Seq<char>>, b: Seq<Seq<char>>, c: Seq<Seq<char>>)
    requires
        components_lt(a, b),
        components_lt(b, c),
    ensures
        components_lt(a, c),
    decreases a.len(),
{
    if a.len() > 0 && b.len() > 0 && c.len() > 0 {
        if a[0] != b[0] && b[0] != c[0] {
            crate::text::lemma_seq_lt_trans(a[0], b[0], c[0]);
            if a[0] == c[0] {
                crate::text::lemma_seq_lt_total(a[0], b[0]);
            }
        } else if a[0] != b[0] {
        } else if b[0] != c[0] {
        } else {
            lemma_components_trans(a.drop_first(), b.drop_first(), c.drop_first());
        }
    }
}

/// The member directories come sorted as paths, with no directory listed
/// twice in a row.
pub proof fn law_members_sorted(root: Seq<char>, doc: TomlValue, reports: Seq<MemberReport>)
    ensures
        members_spec(root, doc, reports) matches Ok((dirs, _)) ==> crate::sort::ordered_by(
            dirs,
            path_order(),
        ) && forall|i: int| 0 <= i < dirs.len() - 1 ==> #[trigger] dirs[i] != dirs[i + 1],
{
    let lt = path_order();
    assert forall|a: Seq<char>, b: Seq<char>| #[trigger] lt(a, b) implies !lt(b, a) by {
        lemma_components_asym(split_on(a, '/'), split_on(b, '/'));
    }
    assert forall|a: Seq<char>, b: Seq<char>, c: Seq<char>|
        #[trigger] lt(a, b) && #[trigger] lt(b, c) implies lt(a, c) by {
        lemma_components_trans(split_on(a, '/'), split_on(b, '/'), split_on(c, '/'));
    }
    match toml_get(doc, "workspace"@) {
        Some(ws) => match member_search(root, strs_at(ws, "members"@), reports, (Seq::empty(), Seq::empty())) {
            Ok(found) => {
                let kept = keep_not_excluded(found.0, strs_at(ws, "exclude"@));
                crate::sort::lemma_sort_ordered(kept, lt);
                crate::sort::lemma_dedup_ordered(sort_view_by(kept, lt), lt);
            },
            Err(_) => {},
        },
        None => {},
    }
}

} // verus!
