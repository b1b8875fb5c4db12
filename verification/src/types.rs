//! Shared types threaded through the whole pipeline: [`PackageReq`] (a
//! parsed, not-yet-resolved spec like `node@^20`) → [`Package`] (pinned to
//! an exact version) → [`Installation`] (pinned + a real cache path) →
//! [`ResolvedEnvironment`] (installations plus their composed env vars).
use vstd::prelude::*;

use crate::keyed::KeyedMap;
use crate::text::{
    chars_of, regex_char_match, regex_matches_char, slice_chars, string_of, trim, trim_ws,
    word_pattern,
};
use crate::version::{
    semver_req_matches, semver_req_parses, star_text, PkgVersion, VersionConstraint, VersionError,
    VersionV,
};

verus! {

broadcast use vstd::string::group_string_axioms;

/// A fully pinned package with an exact version.
#[derive(Debug)]
pub struct Package {
    pub project: String,
    pub version: PkgVersion,
}

pub struct PackageV {
    pub project: Seq<char>,
    pub version: VersionV,
}

impl View for Package {
    type V = PackageV;

    open spec fn view(&self) -> PackageV {
        PackageV { project: self.project@, version: self.version@ }
    }
}

impl Package {
    pub fn copy(&self) -> (r: Package)
        ensures
            r@ == self@,
    {
        Package { project: self.project.clone(), version: self.version.clone() }
    }
}

/// A cached installation on disk.
#[derive(Debug)]
pub struct Installation {
    pub pkg: Package,
    pub path: String,
}

pub struct InstallationV {
    pub pkg: PackageV,
    pub path: Seq<char>,
}

impl View for Installation {
    type V = InstallationV;

    open spec fn view(&self) -> InstallationV {
        InstallationV { pkg: self.pkg@, path: self.path@ }
    }
}

/// The final resolved environment ready for execution.
#[derive(Debug)]
pub struct ResolvedEnvironment {
    pub installations: Vec<Installation>,
    pub env: KeyedMap<String>,
    pub entry: Package,
    pub all_packages: Vec<Package>,
}

/// Host platform.
#[derive(Debug, Clone, Copy, PartialEq, Eq)]
pub enum HostOs {
    Linux,
    MacOs,
    Windows,
}

#[derive(Debug, Clone, Copy, PartialEq, Eq)]
pub enum HostArch {
    Amd64,
    Aarch64,
}

pub open spec fn os_name(os: HostOs) -> Seq<char> {
    match os {
        HostOs::Linux => "linux"@,
        HostOs::MacOs => "darwin"@,
        HostOs::Windows => "windows"@,
    }
}

pub open spec fn arch_name(arch: HostArch) -> Seq<char> {
    match arch {
        HostArch::Amd64 => "x86-64"@,
        HostArch::Aarch64 => "aarch64"@,
    }
}

/// The `os/arch` part of bottle URLs on the pkgx dist server.
pub fn platform_prefix_for(os: HostOs, arch: HostArch) -> (r: String)
    ensures
        r@ == os_name(os) + seq!['/'] + arch_name(arch),
{
    let mut out: Vec<char> = Vec::new();
    match os {
        HostOs::Linux => crate::text::push_str(&mut out, "linux"),
        HostOs::MacOs => crate::text::push_str(&mut out, "darwin"),
        HostOs::Windows => crate::text::push_str(&mut out, "windows"),
    }
    out.push('/');
    match arch {
        HostArch::Amd64 => crate::text::push_str(&mut out, "x86-64"),
        HostArch::Aarch64 => crate::text::push_str(&mut out, "aarch64"),
    }
    string_of(&out)
}

// ── Package specs ────────────────────────────────────────────────────

/// Whether `c` is a `\w` word character of the `regex` crate.
pub open spec fn regex_word_char(c: char) -> bool {
    regex_matches_char(word_pattern(), c)
}

fn regex_word_char_exec(c: char) -> (r: bool)
    ensures
        r == regex_word_char(c),
{
    let p = "\\A\\w\\z";
    proof {
        reveal_strlit("\\A\\w\\z");
        assert(p@ =~= word_pattern());
    }
    regex_char_match(p, c)
}

pub open spec fn ascii_word_char(c: char) -> bool {
    ('0' <= c && c <= '9') || ('a' <= c && c <= 'z') || ('A' <= c && c <= 'Z') || c == '_'
}

/// A character of the constraint class `[\w~^=<>.*-]` of a package spec.
/// On ASCII, `\w` is `[0-9A-Za-z_]`; beyond it, the class is `\w` alone.
pub open spec fn constraint_char(c: char) -> bool {
    if (c as u32) < 128 {
        ascii_word_char(c) || c == '~' || c == '^' || c == '=' || c == '<' || c == '>' || c
            == '.' || c == '*' || c == '-'
    } else {
        regex_word_char(c)
    }
}

fn constraint_char_exec(c: char) -> (r: bool)
    ensures
        r == constraint_char(c),
{
    if (c as u32) < 128 {
        ('0' <= c && c <= '9') || ('a' <= c && c <= 'z') || ('A' <= c && c <= 'Z') || c == '_' || c
            == '~' || c == '^' || c == '=' || c == '<' || c == '>' || c == '.' || c == '*' || c
            == '-'
    } else {
        regex_word_char_exec(c)
    }
}

/// What may follow the project name in a spec: nothing, `*`, or `@`
/// followed by one or more constraint characters.
pub open spec fn constraint_suffix(r: Seq<char>) -> bool {
    ||| r.len() == 0
    ||| r == seq!['*']
    ||| (r.len() >= 2 && r[0] == '@' && forall|i: int| 1 <= i < r.len() ==> constraint_char(#[trigger] r[i]))
}

/// The shortest project name (at least `k` characters) after which the
/// rest of `t` is a constraint suffix: the lazy `(.+?)` of the spec
/// pattern `^(.+?)((?:@[\w~^=<>.*-]+)|\*)?$`.
pub open spec fn split_point(t: Seq<char>, k: int) -> int
    decreases t.len() - k,
{
    if k >= t.len() {
        t.len() as int
    } else if constraint_suffix(t.skip(k)) {
        k
    } else {
        split_point(t, k + 1)
    }
}

pub open spec fn spec_project(t: Seq<char>) -> Seq<char> {
    t.take(split_point(t, 1))
}

pub open spec fn spec_suffix(t: Seq<char>) -> Seq<char> {
    t.skip(split_point(t, 1))
}

pub open spec fn strip1(s: Seq<char>, c: char) -> Seq<char> {
    if s.len() > 0 && s[0] == c {
        s.drop_first()
    } else {
        s
    }
}

pub open spec fn all_digits_or_dots(s: Seq<char>) -> bool {
    forall|i: int| 0 <= i < s.len() ==> ('0' <= #[trigger] s[i] <= '9' || s[i] == '.')
}

/// How many dots `s` holds.
pub open spec fn dot_count(s: Seq<char>) -> nat
    decreases s.len(),
{
    if s.len() == 0 {
        0
    } else {
        dot_count(s.drop_last()) + if s.last() == '.' {
            1nat
        } else {
            0nat
        }
    }
}

/// The requirement text a spec's suffix asks for; `None` means "any
/// version" (`VersionReq::STAR`). A bare partial version such as `20` or
/// `3.11` becomes a caret requirement (`^20`); a bare full version
/// `major.minor.patch` such as `3.11.0` becomes an exact one (`=3.11.0`).
pub open spec fn constraint_text(suffix: Seq<char>) -> Option<Seq<char>> {
    if suffix.len() == 0 || suffix == "@latest"@ || suffix == seq!['*'] {
        None
    } else {
        let cs = strip1(strip1(suffix, '@'), '*');
        if all_digits_or_dots(cs) {
            if dot_count(cs) == 2 {
                Some(seq!['='] + cs)
            } else {
                Some(seq!['^'] + cs)
            }
        } else {
            Some(cs)
        }
    }
}

/// Whether `spec` is a package spec that parses: it holds more than
/// whitespace, no line break, and its constraint (if any) is a semver
/// requirement.
pub open spec fn spec_accepted(spec: Seq<char>) -> bool {
    &&& trim(spec).len() > 0
    &&& !trim(spec).contains('\n')
    &&& match constraint_text(spec_suffix(trim(spec))) {
        None => true,
        Some(t) => semver_req_parses(t),
    }
}

/// The requirement text that `spec` parses to.
pub open spec fn spec_constraint(spec: Seq<char>) -> Seq<char> {
    match constraint_text(spec_suffix(trim(spec))) {
        None => star_text(),
        Some(t) => t,
    }
}

/// Why a package spec was refused.
#[derive(Debug)]
pub enum PackageReqError {
    /// The spec pattern takes nothing from it: it is empty after trimming,
    /// or holds a line break.
    Unparsable,
    /// The version constraint is not a semver requirement.
    InvalidConstraint(VersionError),
}

/// A package request with a semver constraint (e.g. "node@^20").
#[derive(Debug)]
pub struct PackageReq {
    pub project: String,
    pub constraint: VersionConstraint,
}

fn constraint_suffix_exec(t: &Vec<char>, k: usize) -> (r: bool)
    requires
        k <= t.len(),
    ensures
        r == constraint_suffix(t@.skip(k as int)),
{
    let ghost rest = t@.skip(k as int);
    let n = t.len() - k;
    if n == 0 {
        return true;
    }
    if n == 1 && t[k] == '*' {
        proof {
            assert(rest =~= seq!['*']);
        }
        return true;
    }
    proof {
        if rest == seq!['*'] {
            assert(rest[0] == t@[k as int]);
        }
    }
    if n < 2 || t[k] != '@' {
        return false;
    }
    let mut i = k + 1;
    while i < t.len()
        invariant
            k + 1 <= i <= t.len(),
            rest == t@.skip(k as int),
            forall|j: int| 1 <= j < i - k ==> constraint_char(#[trigger] rest[j]),
        decreases t.len() - i,
    {
        if !constraint_char_exec(t[i]) {
            proof {
                assert(rest[i - k] == t@[i as int]);
            }
            return false;
        }
        proof {
            assert(rest[i - k] == t@[i as int]);
        }
        i += 1;
    }
    true
}

fn is_latest(s: &Vec<char>) -> (r: bool)
    ensures
        r == (s@ == "@latest"@),
{
    let l = chars_of("@latest");
    crate::text::chars_eq(s, &l)
}

fn strip1_exec(s: &Vec<char>, c: char) -> (r: Vec<char>)
    ensures
        r@ == strip1(s@, c),
{
    if s.len() > 0 && s[0] == c {
        let r = slice_chars(s, 1, s.len());
        proof {
            assert(r@ =~= s@.drop_first());
        }
        r
    } else {
        slice_chars(s, 0, s.len())
    }
}

impl PackageReq {
    /// Parse a spec string: a project name, then optionally `@` and a
    /// version constraint, `@latest`, or `*`. A bare number like `20` or
    /// `3.11` means `^20` / `^3.11`, a bare full version like `3.11.0`
    /// means `=3.11.0`; no constraint means any version.
    /// The spec must hold more than whitespace, and no line break.
    pub fn parse(spec: &str) -> (r: Result<PackageReq, PackageReqError>)
        requires
            trim(spec@).len() > 0,
            !trim(spec@).contains('\n'),
        ensures
            !(r matches Err(PackageReqError::Unparsable)),
            r is Ok <==> match constraint_text(spec_suffix(trim(spec@))) {
                None => true,
                Some(t) => semver_req_parses(t),
            },
            r matches Ok(req) ==> req.project@ == spec_project(trim(spec@)) && req.constraint@
                == match constraint_text(spec_suffix(trim(spec@))) {
                None => star_text(),
                Some(t) => t,
            },
    {
        let raw = chars_of(spec);
        let t = trim_ws(&raw);
        let mut k: usize = 1;
        while k < t.len() && !constraint_suffix_exec(&t, k)
            invariant
                1 <= k <= t.len(),
                split_point(t@, 1) == split_point(t@, k as int),
            decreases t.len() - k,
        {
            k += 1;
        }
        let project = slice_chars(&t, 0, k);
        let suffix = slice_chars(&t, k, t.len());
        proof {
            assert(project@ =~= t@.take(k as int));
            assert(suffix@ =~= t@.skip(k as int));
            assert(split_point(t@, k as int) == k);
        }
        let project = string_of(&project);
        if suffix.len() == 0 || is_latest(&suffix) || (suffix.len() == 1 && suffix[0] == '*') {
            proof {
                if suffix@ == seq!['*'] {
                    assert(suffix@[0] == '*');
                }
                if suffix.len() == 1 && suffix[0] == '*' {
                    assert(suffix@ =~= seq!['*']);
                }
            }
            return Ok(PackageReq { project, constraint: VersionConstraint::star() });
        }
        proof {
            if suffix@ == seq!['*'] {
                assert(suffix@[0] == '*');
            }
        }
        let cs1 = strip1_exec(&suffix, '@');
        let cs = strip1_exec(&cs1, '*');
        let mut all = true;
        let mut dots: usize = 0;
        let mut i: usize = 0;
        proof {
            assert(cs@.take(0) =~= Seq::<char>::empty());
        }
        while i < cs.len()
            invariant
                i <= cs.len(),
                all == (forall|j: int| 0 <= j < i ==> ('0' <= #[trigger] cs@[j] <= '9' || cs@[j] == '.')),
                dots == dot_count(cs@.take(i as int)),
                dots <= i,
            decreases cs.len() - i,
        {
            if !(('0' <= cs[i] && cs[i] <= '9') || cs[i] == '.') {
                all = false;
            }
            proof {
                assert(cs@.take(i + 1).drop_last() =~= cs@.take(i as int));
                assert(cs@.take(i + 1).last() == cs@[i as int]);
            }
            if cs[i] == '.' {
                dots += 1;
            }
            i += 1;
        }
        proof {
            assert(cs@.take(cs@.len() as int) =~= cs@);
        }
        let text = if all {
            let mut c = if dots == 2 {
                vec!['=']
            } else {
                vec!['^']
            };
            crate::text::push_chars(&mut c, &cs);
            c
        } else {
            cs
        };
        let text = string_of(&text);
        proof {
            assert(all == all_digits_or_dots(cs@));
            assert(suffix@ != "@latest"@);
            assert(suffix@ != seq!['*']);
            assert(suffix@.len() != 0);
            assert(constraint_text(suffix@) == Some(text@));
        }
        match VersionConstraint::parse(text.as_str()) {
            Ok(c) => Ok(PackageReq { project, constraint: c }),
            Err(e) => Err(PackageReqError::InvalidConstraint(e)),
        }
    }

    /// Parse any spec string: one that is empty after trimming or holds a
    /// line break is refused as `Unparsable`; any other is parsed as
    /// `parse` does.
    pub fn try_parse(spec: &str) -> (r: Result<PackageReq, PackageReqError>)
        ensures
            r matches Err(PackageReqError::Unparsable) <==> (trim(spec@).len() == 0 || trim(
                spec@,
            ).contains('\n')),
            trim(spec@).len() > 0 && !trim(spec@).contains('\n') ==> {
                &&& r is Ok <==> match constraint_text(spec_suffix(trim(spec@))) {
                    None => true,
                    Some(t) => semver_req_parses(t),
                }
                &&& r matches Ok(req) ==> req.project@ == spec_project(trim(spec@))
                    && req.constraint@ == match constraint_text(spec_suffix(trim(spec@))) {
                    None => star_text(),
                    Some(t) => t,
                }
            },
    {
        let raw = chars_of(spec);
        let t = trim_ws(&raw);
        if t.len() == 0 || crate::text::contains_char(&t, '\n') {
            return Err(PackageReqError::Unparsable);
        }
        PackageReq::parse(spec)
    }

    /// Whether this request's constraint matches `version`.
    pub fn matches(&self, version: &PkgVersion) -> (r: bool)
        ensures
            r == semver_req_matches(self.constraint@, version@),
    {
        self.constraint.matches(version)
    }
}

/// Parse every spec of `specs`, in order, before anything is looked up:
/// all of them, or the position of the first that is refused and why.
pub fn parse_specs(specs: &Vec<String>) -> (r: Result<Vec<PackageReq>, (usize, PackageReqError)>)
    ensures
        r is Ok <==> forall|i: int| 0 <= i < specs@.len() ==> spec_accepted(#[trigger] specs@[i]@),
        r matches Ok(v) ==> v@.len() == specs@.len() && forall|i: int|
            0 <= i < specs@.len() ==> (#[trigger] v@[i]).project@ == spec_project(trim(specs@[i]@))
                && v@[i].constraint@ == spec_constraint(specs@[i]@),
        r matches Err((k, _)) ==> k < specs@.len() && !spec_accepted(specs@[k as int]@) && forall|
            j: int,
        |
            0 <= j < k ==> spec_accepted(#[trigger] specs@[j]@),
{
    let mut out: Vec<PackageReq> = Vec::new();
    let mut i: usize = 0;
    while i < specs.len()
        invariant
            i <= specs.len(),
            out@.len() == i,
            forall|j: int| 0 <= j < i ==> spec_accepted(#[trigger] specs@[j]@),
            forall|j: int|
                0 <= j < i ==> (#[trigger] out@[j]).project@ == spec_project(trim(specs@[j]@))
                    && out@[j].constraint@ == spec_constraint(specs@[j]@),
        decreases specs.len() - i,
    {
        match PackageReq::try_parse(specs[i].as_str()) {
            Ok(req) => {
                out.push(req);
            },
            Err(e) => {
                return Err((i, e));
            },
        }
        i += 1;
    }
    Ok(out)
}

} // verus!
