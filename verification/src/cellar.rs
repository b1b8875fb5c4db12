//! The local cache: which versions of a project are installed, which one
//! best meets a requirement, and the `v*` / `v<major>` / `v<major.minor>`
//! symlinks that point at the newest installed version of each range.
//! Looking at the disk is the caller's job; this module works on what the
//! caller saw there.
use vstd::prelude::*;

use crate::config::{sanitize_project_name_spec, Config};
use crate::paths::{join, join_path};
use crate::text::{chars_of, dec, push_dec, push_str, slice_chars, string_of};
use crate::types::{Installation, Package};
use crate::version::{
    newest_first, render_version, semver_lt, semver_parse, semver_req_matches, sort_newest_first, views,
    PkgVersion, VersionConstraint, VersionV,
};

verus! {

broadcast use vstd::string::group_string_axioms;

/// Index of the first element of `s` satisfying `p`, or `s.len()`.
pub open spec fn first_where<A>(s: Seq<A>, p: spec_fn(A) -> bool) -> int
    decreases s.len(),
{
    if s.len() == 0 {
        0
    } else if p(s[0]) {
        0
    } else {
        1 + first_where(s.drop_first(), p)
    }
}

/// `first_where` is determined by where the predicate first holds.
pub proof fn lemma_first_where<A>(s: Seq<A>, p: spec_fn(A) -> bool, i: int)
    requires
        0 <= i <= s.len(),
        forall|j: int| 0 <= j < i ==> !p(#[trigger] s[j]),
        i < s.len() ==> p(s[i]),
    ensures
        first_where(s, p) == i,
    decreases s.len(),
{
    if s.len() > 0 && !p(s[0]) {
        assert forall|j: int| 0 <= j < i - 1 implies !p(#[trigger] s.drop_first()[j]) by {
            assert(s.drop_first()[j] == s[j + 1]);
        }
        lemma_first_where(s.drop_first(), p, i - 1);
    }
}

/// The version a cache directory entry named `name` holds: `v` followed
/// by a semver version.
pub open spec fn dir_version(name: Seq<char>) -> Option<VersionV> {
    if name.len() > 0 && name[0] == 'v' {
        semver_parse(name.drop_first())
    } else {
        None
    }
}

/// The versions held by a project directory's entries `(name, is_symlink)`,
/// in order; symlinks (the `v*`, `v20`, `v20.11` aliases) are skipped.
pub open spec fn entry_versions(entries: Seq<(Seq<char>, bool)>) -> Seq<VersionV>
    decreases entries.len(),
{
    if entries.len() == 0 {
        seq![]
    } else {
        let prev = entry_versions(entries.drop_last());
        let (name, is_link) = entries.last();
        if is_link {
            prev
        } else {
            match dir_version(name) {
                Some(v) => prev.push(v),
                None => prev,
            }
        }
    }
}

/// The version a directory entry or symlink target named `name` holds.
pub fn version_from_dir_name(name: &str) -> (r: Option<PkgVersion>)
    ensures
        match r {
            Some(v) => dir_version(name@) == Some(v@),
            None => dir_version(name@) is None,
        },
{
    let c = chars_of(name);
    if c.len() > 0 && c[0] == 'v' {
        let rest = slice_chars(&c, 1, c.len());
        proof {
            assert(rest@ =~= name@.drop_first());
        }
        let rs = string_of(&rest);
        match PkgVersion::parse(rs.as_str()) {
            Ok(v) => Some(v),
            Err(_) => None,
        }
    } else {
        None
    }
}

/// The installed versions of a project, newest first, from its directory
/// entries `(name, is_symlink)`.
pub fn installed_versions(entries: &Vec<(String, bool)>) -> (r: Vec<PkgVersion>)
    ensures
        views(r@).to_multiset() == entry_versions(
            entries@.map_values(|e: (String, bool)| (e.0@, e.1)),
        ).to_multiset(),
        newest_first(views(r@)),
{
    let ghost all = entries@.map_values(|e: (String, bool)| (e.0@, e.1));
    let mut found: Vec<PkgVersion> = Vec::new();
    let mut i: usize = 0;
    proof {
        assert(all.take(0) =~= seq![]);
        assert(views(found@) =~= seq![]);
    }
    while i < entries.len()
        invariant
            i <= entries.len(),
            all == entries@.map_values(|e: (String, bool)| (e.0@, e.1)),
            views(found@) == entry_versions(all.take(i as int)),
        decreases entries.len() - i,
    {
        proof {
            assert(all.take(i + 1).drop_last() =~= all.take(i as int));
            assert(all.take(i + 1).last() == (entries@[i as int].0@, entries@[i as int].1));
        }
        if !entries[i].1 {
            match version_from_dir_name(entries[i].0.as_str()) {
                Some(v) => {
                    let ghost before = found@;
                    found.push(v);
                    proof {
                        assert(views(found@) =~= views(before).push(found@.last()@));
                    }
                },
                None => {},
            }
        }
        i += 1;
    }
    proof {
        assert(all.take(entries.len() as int) =~= all);
    }
    sort_newest_first(&mut found);
    found
}

/// The first installed version (of a newest-first list) that meets
/// `constraint`.
pub fn best_installed(installed: &Vec<PkgVersion>, constraint: &VersionConstraint) -> (r: Option<
    PkgVersion,
>)
    ensures
        ({
            let i = first_where(views(installed@), |v: VersionV| semver_req_matches(constraint@, v));
            &&& 0 <= i <= installed@.len()
            &&& match r {
                Some(v) => i < installed@.len() && v@ == installed@[i]@,
                None => i == installed@.len(),
            }
        }),
{
    let ghost vv = views(installed@);
    let ghost p = |v: VersionV| semver_req_matches(constraint@, v);
    let mut i: usize = 0;
    while i < installed.len()
        invariant
            i <= installed.len(),
            vv == views(installed@),
            p == (|v: VersionV| semver_req_matches(constraint@, v)),
            forall|j: int| 0 <= j < i ==> !p(#[trigger] vv[j]),
        decreases installed.len() - i,
    {
        if constraint.matches(&installed[i]) {
            proof {
                lemma_first_where(vv, p, i as int);
            }
            return Some(installed[i].clone());
        }
        proof {
            assert(vv[i as int] == installed@[i as int]@);
        }
        i += 1;
    }
    proof {
        lemma_first_where(vv, p, i as int);
    }
    None
}

/// The installation record of an installed package: the package and its
/// version directory.
pub fn get_installation(config: &Config, pkg: &Package) -> (r: Installation)
    ensures
        r.pkg@ == pkg@,
        r.path@ == join(
            join(config.cache_dir@, sanitize_project_name_spec(pkg.project@)),
            seq!['v'] + render_version(pkg.version@),
        ),
{
    let text = pkg.version.to_text();
    let path = config.version_dir(pkg.project.as_str(), text.as_str());
    Installation { pkg: pkg.copy(), path }
}

/// The file whose presence marks an installed version: its `bin/`.
pub fn installed_marker(config: &Config, project: &str, version: &PkgVersion) -> (r: String)
    ensures
        r@ == join(
            join(
                join(config.cache_dir@, sanitize_project_name_spec(project@)),
                seq!['v'] + render_version(version@),
            ),
            "bin"@,
        ),
{
    let text = version.to_text();
    let dir = config.version_dir(project, text.as_str());
    join_path(dir.as_str(), "bin")
}

/// The cache directory of `project` under `cache_dir`.
pub open spec fn cache_project_dir(cache_dir: Seq<char>, project: Seq<char>) -> Seq<char> {
    join(cache_dir, sanitize_project_name_spec(project))
}

/// Where the lookup tombstone of `project` lies under `cache_dir`.
pub open spec fn tombstone_path(cache_dir: Seq<char>, project: Seq<char>) -> Seq<char> {
    join(cache_project_dir(cache_dir, project), ".no-such-project"@)
}

/// Whether, with `files` the paths that exist, the cache records that the
/// dist server has no `project`.
pub open spec fn has_tombstone(files: Set<Seq<char>>, cache_dir: Seq<char>, project: Seq<char>) -> bool {
    files.contains(tombstone_path(cache_dir, project))
}

/// The paths that exist once the tombstone of `project` was written.
pub open spec fn mark_tombstone(files: Set<Seq<char>>, cache_dir: Seq<char>, project: Seq<char>) -> Set<
    Seq<char>,
> {
    files.insert(tombstone_path(cache_dir, project))
}

pub open spec fn ends_with_slash(s: Seq<char>) -> bool {
    s.len() > 0 && s.last() == '/'
}

/// The marker file recording that the dist server has no such project.
pub fn lookup_tombstone_path(config: &Config, project: &str) -> (r: String)
    ensures
        r@ == tombstone_path(config.cache_dir@, project@),
{
    let dir = config.project_dir(project);
    join_path(dir.as_str(), ".no-such-project")
}

/// Writing a project's lookup tombstone makes that project tombstoned, and
/// leaves every project with another cache directory as it was, as long
/// as neither directory ends in `/` (`foo/` and `foo` share one tombstone).
pub proof fn lemma_tombstone_marking(files: Set<Seq<char>>, cache_dir: Seq<char>, p: Seq<char>, q: Seq<char>)
    ensures
        has_tombstone(mark_tombstone(files, cache_dir, p), cache_dir, p),
        cache_project_dir(cache_dir, q) != cache_project_dir(cache_dir, p) && !ends_with_slash(
            cache_project_dir(cache_dir, p),
        ) && !ends_with_slash(cache_project_dir(cache_dir, q)) ==> (has_tombstone(
            mark_tombstone(files, cache_dir, p),
            cache_dir,
            q,
        ) == has_tombstone(files, cache_dir, q)),
{
    let dp = cache_project_dir(cache_dir, p);
    let dq = cache_project_dir(cache_dir, q);
    if dq != dp && !ends_with_slash(dp) && !ends_with_slash(dq) {
        lemma_join_name_injective(dp, dq, ".no-such-project"@);
    }
}

/// Joining a name that is not absolute onto two directories, neither
/// ending in `/`, gives two different paths when the directories differ.
proof fn lemma_join_name_injective(d1: Seq<char>, d2: Seq<char>, t: Seq<char>)
    requires
        t == ".no-such-project"@,
        d1 != d2,
        !ends_with_slash(d1),
        !ends_with_slash(d2),
    ensures
        join(d1, t) != join(d2, t),
{
    reveal_strlit(".no-such-project");
    assert(t[0] == '.');
    if join(d1, t) == join(d2, t) {
        if d1.len() == 0 {
            if d2.len() == 0 {
                assert(d1 =~= d2);
            }
            assert(join(d2, t) == d2 + seq!['/'] + t);
        } else if d2.len() == 0 {
            assert(join(d1, t) == d1 + seq!['/'] + t);
        } else {
            let a = join(d1, t);
            assert(a == d1 + seq!['/'] + t);
            assert(a == d2 + seq!['/'] + t);
            assert(d1.len() == d2.len());
            assert(d1 =~= a.take(d1.len() as int));
            assert(d2 =~= a.take(d2.len() as int));
        }
    }
}

// ── Version symlinks ─────────────────────────────────────────────────

/// What a version symlink points at: `v<version>`, relative.
pub open spec fn link_target(v: VersionV) -> Seq<char> {
    seq!['v'] + render_version(v)
}

pub fn symlink_target(v: &PkgVersion) -> (r: String)
    ensures
        r@ == link_target(v@),
{
    let mut out = vec!['v'];
    let t = v.to_text();
    push_str(&mut out, t.as_str());
    string_of(&out)
}

pub open spec fn same_major(m: u64) -> spec_fn(VersionV) -> bool {
    |v: VersionV| v.major == m
}

pub open spec fn same_minor(m: u64, n: u64) -> spec_fn(VersionV) -> bool {
    |v: VersionV| v.major == m && v.minor == n
}

/// The symlinks to (re)create in a project directory after `installed` was
/// installed, given all installed versions newest first: `v*` to the
/// newest, `v<major>` to the newest of its major series, `v<major.minor>`
/// to the newest of its minor series; each `(name, target)`, in that order,
/// each only when some version qualifies.
pub open spec fn symlink_plan_spec(all: Seq<VersionV>, installed: VersionV) -> Seq<
    (Seq<char>, Seq<char>),
> {
    let a = if all.len() > 0 {
        seq![(seq!['v', '*'], link_target(all[0]))]
    } else {
        seq![]
    };
    let i = first_where(all, same_major(installed.major));
    let b = if i < all.len() {
        seq![(seq!['v'] + dec(installed.major as nat), link_target(all[i]))]
    } else {
        seq![]
    };
    let j = first_where(all, same_minor(installed.major, installed.minor));
    let c = if j < all.len() {
        seq![
            (seq!['v'] + dec(installed.major as nat) + seq!['.'] + dec(installed.minor as nat), link_target(all[j])),
        ]
    } else {
        seq![]
    };
    a + b + c
}

/// `first_where` is in range, skips only elements failing the predicate,
/// and stops at one satisfying it.
proof fn lemma_first_where_props<A>(s: Seq<A>, p: spec_fn(A) -> bool)
    ensures
        0 <= first_where(s, p) <= s.len(),
        forall|j: int| 0 <= j < first_where(s, p) ==> !p(#[trigger] s[j]),
        first_where(s, p) < s.len() ==> p(s[first_where(s, p)]),
    decreases s.len(),
{
    if s.len() > 0 && !p(s[0]) {
        lemma_first_where_props(s.drop_first(), p);
        assert forall|j: int| 0 <= j < first_where(s, p) implies !p(#[trigger] s[j]) by {
            if j > 0 {
                assert(s[j] == s.drop_first()[j - 1]);
            }
        }
    }
}

/// Whether `v` is the newest of the versions of `all` in the range `p`:
/// it is one of them, and no other of them is newer.
pub open spec fn newest_in(all: Seq<VersionV>, p: spec_fn(VersionV) -> bool, j: int) -> bool {
    &&& 0 <= j < all.len()
    &&& p(all[j])
    &&& forall|k: int| 0 <= k < all.len() && k != j && #[trigger] p(all[k]) ==> !semver_lt(all[j], all[k])
}

/// With the installed versions newest first, each planned link points at
/// the newest installed version of its range, and a link is planned
/// exactly when its range holds a version: `v*` first, for all versions;
/// then `v<major>`, for those of the installed version's major series;
/// last `v<major.minor>`, for those of its minor series.
pub proof fn lemma_symlinks_target_newest(all: Seq<VersionV>, installed: VersionV)
    requires
        newest_first(all),
    ensures
        ({
            let plan = symlink_plan_spec(all, installed);
            let pm = same_major(installed.major);
            let pn = same_minor(installed.major, installed.minor);
            let has_all = all.len() > 0;
            let has_major = exists|k: int| 0 <= k < all.len() && #[trigger] pm(all[k]);
            let has_minor = exists|k: int| 0 <= k < all.len() && #[trigger] pn(all[k]);
            &&& plan.len() == (if has_all { 1int } else { 0 }) + (if has_major { 1int } else { 0 })
                + (if has_minor { 1int } else { 0 })
            &&& has_all ==> exists|j: int|
                newest_in(all, |v: VersionV| true, j) && plan[0] == (seq!['v', '*'], link_target(
                    #[trigger] all[j],
                ))
            &&& has_major ==> exists|j: int|
                newest_in(all, pm, j) && plan[1] == (seq!['v'] + dec(installed.major as nat), link_target(
                    #[trigger] all[j],
                ))
            &&& has_minor ==> exists|j: int|
                newest_in(all, pn, j) && plan[2] == (
                    seq!['v'] + dec(installed.major as nat) + seq!['.'] + dec(installed.minor as nat),
                    link_target(#[trigger] all[j]),
                )
        }),
{
    let plan = symlink_plan_spec(all, installed);
    let pm = same_major(installed.major);
    let pn = same_minor(installed.major, installed.minor);
    let pa = |v: VersionV| true;
    lemma_first_where_props(all, pm);
    lemma_first_where_props(all, pn);
    let i = first_where(all, pm);
    let j = first_where(all, pn);
    let has_major = exists|k: int| 0 <= k < all.len() && #[trigger] pm(all[k]);
    let has_minor = exists|k: int| 0 <= k < all.len() && #[trigger] pn(all[k]);
    assert(has_major <==> i < all.len()) by {
        if i < all.len() {
            assert(pm(all[i]));
        }
    }
    assert(has_minor <==> j < all.len()) by {
        if j < all.len() {
            assert(pn(all[j]));
        }
    }
    if has_minor {
        assert(pm(all[j]));
    }
    if all.len() > 0 {
        assert(newest_in(all, pa, 0)) by {
            assert forall|k: int| 0 <= k < all.len() && k != 0 && #[trigger] pa(all[k]) implies !semver_lt(
                all[0],
                all[k],
            ) by {
                assert(!semver_lt(all[0], all[k]));
            }
        }
        assert(plan[0] == (seq!['v', '*'], link_target(all[0])));
    }
    if has_major {
        assert(newest_in(all, pm, i)) by {
            assert forall|k: int| 0 <= k < all.len() && k != i && #[trigger] pm(all[k]) implies !semver_lt(
                all[i],
                all[k],
            ) by {
                if k < i {
                    assert(!pm(all[k]));
                } else {
                    assert(!semver_lt(all[i], all[k]));
                }
            }
        }
        assert(plan[1] == (seq!['v'] + dec(installed.major as nat), link_target(all[i])));
    }
    if has_minor {
        assert(newest_in(all, pn, j)) by {
            assert forall|k: int| 0 <= k < all.len() && k != j && #[trigger] pn(all[k]) implies !semver_lt(
                all[j],
                all[k],
            ) by {
                if k < j {
                    assert(!pn(all[k]));
                } else {
                    assert(!semver_lt(all[j], all[k]));
                }
            }
        }
        assert(plan[2] == (
            seq!['v'] + dec(installed.major as nat) + seq!['.'] + dec(installed.minor as nat),
            link_target(all[j]),
        ));
    }
}

fn first_index_where(all: &Vec<PkgVersion>, major: u64, minor: Option<u64>) -> (r: usize)
    ensures
        r == first_where(
            views(all@),
            match minor {
                Some(n) => same_minor(major, n),
                None => same_major(major),
            },
        ),
        r <= all@.len(),
{
    let ghost vv = views(all@);
    let ghost p = match minor {
        Some(n) => same_minor(major, n),
        None => same_major(major),
    };
    let mut i: usize = 0;
    while i < all.len()
        invariant
            i <= all.len(),
            vv == views(all@),
            p == (match minor {
                Some(n) => same_minor(major, n),
                None => same_major(major),
            }),
            forall|j: int| 0 <= j < i ==> !p(#[trigger] vv[j]),
        decreases all.len() - i,
    {
        let hit = match minor {
            Some(n) => all[i].major() == major && all[i].minor() == n,
            None => all[i].major() == major,
        };
        proof {
            assert(vv[i as int] == all@[i as int]@);
        }
        if hit {
            proof {
                lemma_first_where(vv, p, i as int);
            }
            return i;
        }
        i += 1;
    }
    proof {
        lemma_first_where(vv, p, i as int);
    }
    i
}

pub open spec fn plan_view(plan: Seq<(String, String)>) -> Seq<(Seq<char>, Seq<char>)> {
    plan.map_values(|e: (String, String)| (e.0@, e.1@))
}

/// The version symlinks to create after installing `installed`; `all` is
/// every installed version of the project, newest first.
pub fn symlink_plan(all: &Vec<PkgVersion>, installed: &PkgVersion) -> (r: Vec<(String, String)>)
    ensures
        plan_view(r@) == symlink_plan_spec(views(all@), installed@),
{
    let ghost vv = views(all@);
    let ghost iv = installed@;
    let mut plan: Vec<(String, String)> = Vec::new();
    if all.len() > 0 {
        let name = string_of(&vec!['v', '*']);
        let target = symlink_target(&all[0]);
        proof {
            assert(vv[0] == all@[0]@);
            assert(name@ =~= seq!['v', '*']);
        }
        plan.push((name, target));
        proof {
            assert(plan_view(plan@) =~= seq![(seq!['v', '*'], link_target(vv[0]))]);
        }
    } else {
        proof {
            assert(plan_view(plan@) =~= seq![]);
        }
    }
    let ghost pa = plan_view(plan@);
    let major = installed.major();
    let minor = installed.minor();
    let i = first_index_where(all, major, None);
    if i < all.len() {
        let mut name = vec!['v'];
        push_dec(&mut name, major);
        let ns = string_of(&name);
        let target = symlink_target(&all[i]);
        let ghost e = (ns@, target@);
        proof {
            assert(vv[i as int] == all@[i as int]@);
            assert(ns@ =~= seq!['v'] + dec(iv.major as nat));
        }
        plan.push((ns, target));
        proof {
            assert(plan_view(plan@) =~= pa.push(e));
            assert(plan_view(plan@) =~= pa + seq![(seq!['v'] + dec(iv.major as nat), link_target(vv[i as int]))]);
        }
    } else {
        proof {
            assert(plan_view(plan@) =~= pa + seq![]);
        }
    }
    let ghost pb = plan_view(plan@);
    let j = first_index_where(all, major, Some(minor));
    if j < all.len() {
        let mut name = vec!['v'];
        push_dec(&mut name, major);
        name.push('.');
        push_dec(&mut name, minor);
        let ns = string_of(&name);
        let target = symlink_target(&all[j]);
        let ghost e = (ns@, target@);
        proof {
            assert(vv[j as int] == all@[j as int]@);
            assert(ns@ =~= seq!['v'] + dec(iv.major as nat) + seq!['.'] + dec(iv.minor as nat));
        }
        plan.push((ns, target));
        proof {
            assert(plan_view(plan@) =~= pb.push(e));
            assert(plan_view(plan@) =~= pb + seq![
                (seq!['v'] + dec(iv.major as nat) + seq!['.'] + dec(iv.minor as nat), link_target(vv[j as int])),
            ]);
        }
    } else {
        proof {
            assert(plan_view(plan@) =~= pb + seq![]);
        }
    }
    proof {
        let s = symlink_plan_spec(vv, iv);
        assert(plan_view(plan@) =~= s);
    }
    plan
}

} // verus!
