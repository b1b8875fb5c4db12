//! Runtime configuration: distribution server URL, cache directory,
//! worktree parent and platform string, plus the local pantry overrides.
//! Every stage of the pipeline derives its paths and URLs from here.
use vstd::prelude::*;

use crate::keyed::{assoc_insert, KeyedMap};
use crate::paths::{join, join_chars};
use crate::text::{
    chars_of, push_chars, push_str, slice_chars, starts_with, string_of, trim_start_by,
    CharClass, class_pred,
};

verus! {

broadcast use vstd::string::group_string_axioms;

/// A local pantry override: serve `project` from a directory of one's own.
#[derive(Debug, Clone)]
pub struct PantryOverride {
    pub path: String,
    pub version: Option<String>,
    pub provides: Option<Vec<String>>,
}

pub struct PantryOverrideV {
    pub path: Seq<char>,
    pub version: Option<Seq<char>>,
    pub provides: Option<Seq<Seq<char>>>,
}

impl View for PantryOverride {
    type V = PantryOverrideV;

    open spec fn view(&self) -> PantryOverrideV {
        PantryOverrideV {
            path: self.path@,
            version: match self.version {
                Some(v) => Some(v@),
                None => None,
            },
            provides: match self.provides {
                Some(v) => Some(Seq::new(v@.len(), |i: int| v@[i]@)),
                None => None,
            },
        }
    }
}

/// Configuration for buckets.
#[derive(Debug, Clone)]
pub struct Config {
    /// Base distribution URL (e.g. <https://dist.pkgx.dev>).
    pub dist_url: String,
    /// Cache directory for downloaded bottles.
    pub cache_dir: String,
    /// Parent directory for worktrees; `None` means "next to the repo".
    pub worktree_dir: Option<String>,
    /// Platform string (e.g. "linux/x86-64").
    pub platform: String,
    /// Local pantry overrides, by project name.
    pub pantry_overrides: KeyedMap<PantryOverride>,
}

pub open spec fn default_dist_url() -> Seq<char> {
    "https://dist.pkgx.dev"@
}

pub open spec fn cargo_prefix() -> Seq<char> {
    seq!['c', 'a', 'r', 'g', 'o', ':']
}

pub open spec fn path_prefix() -> Seq<char> {
    seq!['p', 'a', 't', 'h', ':']
}

/// The cache directory name of a project: `cargo:x` lives under `cargo/x`,
/// `path:/a/b` under `path/a/b`; any other name is used as it is.
pub open spec fn sanitize_project_name_spec(name: Seq<char>) -> Seq<char> {
    if name.len() >= 6 && name.take(6) == cargo_prefix() {
        seq!['c', 'a', 'r', 'g', 'o', '/'] + name.skip(6)
    } else if name.len() >= 5 && name.take(5) == path_prefix() {
        seq!['p', 'a', 't', 'h', '/'] + trim_start_by(name.skip(5), |c: char| c == '/')
    } else {
        name
    }
}

pub fn sanitize_project_name(name: &str) -> (r: String)
    ensures
        r@ == sanitize_project_name_spec(name@),
{
    let n = chars_of(name);
    let cargo = vec!['c', 'a', 'r', 'g', 'o', ':'];
    let path = vec!['p', 'a', 't', 'h', ':'];
    proof {
        assert(cargo@ =~= cargo_prefix());
        assert(path@ =~= path_prefix());
    }
    if starts_with(&n, &cargo) {
        let mut out = vec!['c', 'a', 'r', 'g', 'o', '/'];
        let rest = slice_chars(&n, 6, n.len());
        push_chars(&mut out, &rest);
        proof {
            assert(rest@ =~= n@.skip(6));
        }
        string_of(&out)
    } else if starts_with(&n, &path) {
        let mut out = vec!['p', 'a', 't', 'h', '/'];
        let rest = slice_chars(&n, 5, n.len());
        let k = CharClass::Exactly('/');
        let trimmed = trim_start_class(&rest, &k);
        push_chars(&mut out, &trimmed);
        proof {
            assert(rest@ =~= n@.skip(5));
            assert(class_pred(k) =~= (|c: char| c == '/'));
        }
        string_of(&out)
    } else {
        string_of(&n)
    }
}

/// Characters of class `k` removed from the front.
pub fn trim_start_class(v: &Vec<char>, k: &CharClass) -> (r: Vec<char>)
    ensures
        r@ == trim_start_by(v@, class_pred(*k)),
{
    let ghost p = class_pred(*k);
    let mut i: usize = 0;
    proof {
        assert(v@.skip(0) =~= v@);
    }
    while i < v.len() && crate::text::in_class_exec(k, v[i])
        invariant
            i <= v.len(),
            p == class_pred(*k),
            trim_start_by(v@, p) == trim_start_by(v@.skip(i as int), p),
        decreases v.len() - i,
    {
        proof {
            assert(v@.skip(i as int).drop_first() =~= v@.skip(i + 1));
            assert(v@.skip(i as int)[0] == v@[i as int]);
            assert(p(v@[i as int]));
        }
        i += 1;
    }
    proof {
        assert(v@.subrange(i as int, v.len() as int) =~= v@.skip(i as int));
    }
    slice_chars(v, i, v.len())
}

impl Config {
    /// A configuration from the values of `BUCKETS_DIST_URL`,
    /// `BUCKETS_WORKTREE_DIR` (each when set), the cache directory, the
    /// host platform string and the pantry overrides. Without a dist URL the
    /// public pkgx server is used.
    pub fn from_settings(
        dist_url: Option<String>,
        cache_dir: String,
        worktree_dir: Option<String>,
        platform: String,
        pantry_overrides: KeyedMap<PantryOverride>,
    ) -> (r: Config)
        ensures
            r.dist_url@ == match dist_url {
                Some(u) => u@,
                None => default_dist_url(),
            },
            r.cache_dir == cache_dir,
            r.worktree_dir == worktree_dir,
            r.platform == platform,
            r.pantry_overrides == pantry_overrides,
    {
        let dist = match dist_url {
            Some(u) => u,
            None => String::from_str("https://dist.pkgx.dev"),
        };
        Config { dist_url: dist, cache_dir, worktree_dir, platform, pantry_overrides }
    }

    /// Path to the cached installation directory for a project+version.
    pub fn version_dir(&self, project: &str, version: &str) -> (r: String)
        ensures
            r@ == join(
                join(self.cache_dir@, sanitize_project_name_spec(project@)),
                seq!['v'] + version@,
            ),
    {
        let base = chars_of(self.cache_dir.as_str());
        let name = chars_of(sanitize_project_name(project).as_str());
        let dir = join_chars(&base, &name);
        let mut v = vec!['v'];
        push_str(&mut v, version);
        let r = join_chars(&dir, &v);
        string_of(&r)
    }

    /// Path to the project's cache directory (contains the `v*` subdirs).
    pub fn project_dir(&self, project: &str) -> (r: String)
        ensures
            r@ == join(self.cache_dir@, sanitize_project_name_spec(project@)),
    {
        let base = chars_of(self.cache_dir.as_str());
        let name = chars_of(sanitize_project_name(project).as_str());
        let dir = join_chars(&base, &name);
        string_of(&dir)
    }

    /// URL for a bottle tarball: `{dist}/{project}/{platform}/v{version}.tar.xz`.
    pub fn bottle_url(&self, project: &str, version: &str) -> (r: String)
        ensures
            r@ == self.dist_url@ + seq!['/'] + project@ + seq!['/'] + self.platform@ + seq![
                '/',
                'v',
            ] + version@ + ".tar.xz"@,
    {
        let mut out: Vec<char> = Vec::new();
        push_str(&mut out, self.dist_url.as_str());
        out.push('/');
        push_str(&mut out, project);
        out.push('/');
        push_str(&mut out, self.platform.as_str());
        out.push('/');
        out.push('v');
        push_str(&mut out, version);
        push_str(&mut out, ".tar.xz");
        proof {
            assert(out@ =~= self.dist_url@ + seq!['/'] + project@ + seq!['/'] + self.platform@
                + seq!['/', 'v'] + version@ + ".tar.xz"@);
        }
        string_of(&out)
    }

    /// URL for a project's versions list: `{dist}/{project}/{platform}/versions.txt`.
    pub fn versions_url(&self, project: &str) -> (r: String)
        ensures
            r@ == self.dist_url@ + seq!['/'] + project@ + seq!['/'] + self.platform@ + seq!['/']
                + "versions.txt"@,
    {
        let mut out: Vec<char> = Vec::new();
        push_str(&mut out, self.dist_url.as_str());
        out.push('/');
        push_str(&mut out, project);
        out.push('/');
        push_str(&mut out, self.platform.as_str());
        out.push('/');
        push_str(&mut out, "versions.txt");
        proof {
            assert(out@ =~= self.dist_url@ + seq!['/'] + project@ + seq!['/'] + self.platform@
                + seq!['/'] + "versions.txt"@);
        }
        string_of(&out)
    }
}

/// Where the cache may live when `BUCKETS_CACHE_DIR` is unset, in order of
/// preference: `$XDG_CACHE_HOME/buckets`, `$HOME/.buckets`, and finally
/// `buckets-cache` in the working directory (always last, always present).
pub fn default_cache_candidates(xdg_cache_home: Option<String>, home: Option<String>) -> (r: Vec<
    String,
>)
    ensures
        r@.len() == (if xdg_cache_home is Some { 1int } else { 0 }) + (if home is Some {
            1int
        } else {
            0
        }) + 1,
        r@.last()@ == "buckets-cache"@,
        xdg_cache_home matches Some(x) ==> r@[0]@ == join(x@, "buckets"@),
        home matches Some(h) ==> r@[r@.len() - 2]@ == join(h@, ".buckets"@),
{
    let mut out: Vec<String> = Vec::new();
    match &xdg_cache_home {
        Some(x) => {
            out.push(crate::paths::join_path(x.as_str(), "buckets"));
        },
        None => {},
    }
    match &home {
        Some(h) => {
            out.push(crate::paths::join_path(h.as_str(), ".buckets"));
        },
        None => {},
    }
    out.push(String::from_str("buckets-cache"));
    out
}

/// Overrides read later take precedence: each entry of `more` replaces an
/// entry of `base` with the same project name, or is added after them.
pub fn merge_overrides(base: KeyedMap<PantryOverride>, more: Vec<(String, PantryOverride)>) -> (r:
    KeyedMap<PantryOverride>)
    requires
        base.wf(),
    ensures
        r.wf(),
        r@ == extend_spec(base@, Seq::new(more@.len(), |i: int| (more@[i].0@, more@[i].1@))),
{
    let mut out = base;
    let ghost items = Seq::new(more@.len(), |i: int| (more@[i].0@, more@[i].1@));
    let mut rest = more;
    let mut i: usize = 0;
    let n = rest.len();
    proof {
        assert(items.take(0) =~= seq![]);
    }
    while rest.len() > 0
        invariant
            out.wf(),
            i + rest@.len() == n,
            n == items.len(),
            forall|j: int| 0 <= j < rest@.len() ==> (#[trigger] rest@[j]).0@ == items[i + j].0
                && rest@[j].1@ == items[i + j].1,
            out@ == extend_spec(base@, items.take(i as int)),
        decreases rest@.len(),
    {
        let (k, v) = rest.remove(0);
        proof {
            assert(items.take(i + 1).drop_last() =~= items.take(i as int));
            assert(items.take(i + 1).last() == items[i as int]);
        }
        out.insert(k, v);
        i += 1;
    }
    proof {
        assert(items.take(i as int) =~= items);
    }
    out
}

/// `HashMap::extend`: the pairs inserted one after another.
pub open spec fn extend_spec<W>(s: Seq<(Seq<char>, W)>, items: Seq<(Seq<char>, W)>) -> Seq<
    (Seq<char>, W),
>
    decreases items.len(),
{
    if items.len() == 0 {
        s
    } else {
        assoc_insert(extend_spec(s, items.drop_last()), items.last().0, items.last().1)
    }
}

} // verus!
