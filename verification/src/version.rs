//! Semantic versions and version requirements, as the `semver` crate
//! parses, orders and matches them. A [`PkgVersion`] carries the parsed
//! `semver::Version` together with its parts as plain values; a
//! [`VersionConstraint`] carries a parsed `semver::VersionReq` together with
//! the text it was parsed from. Both are built only here, by the functions
//! that call `semver`, so the plain values always describe the parsed one.
use vstd::prelude::*;
use std::cmp::Ordering;
use vstd::std_specs::cmp::PartialEqSpecImpl;

use crate::text::{dec, push_dec, push_str, string_of};

verus! {

broadcast use vstd::string::group_string_axioms;

#[verifier::external_type_specification]
#[verifier::external_body]
pub struct ExSemverVersion(semver::Version);

#[verifier::external_type_specification]
#[verifier::external_body]
pub struct ExSemverVersionReq(semver::VersionReq);

#[verifier::external_type_specification]
#[verifier::external_body]
pub struct ExSemverError(semver::Error);

pub assume_specification[ <semver::Version as Clone>::clone ](v: &semver::Version) -> semver::Version;

pub assume_specification[ <semver::VersionReq as Clone>::clone ](
    r: &semver::VersionReq,
) -> semver::VersionReq;

/// The parts of a version: `major.minor.patch`, pre-release, build metadata.
pub struct VersionV {
    pub major: u64,
    pub minor: u64,
    pub patch: u64,
    pub pre: Seq<char>,
    pub build: Seq<char>,
}

/// A semantic version.
#[derive(Debug)]
pub struct PkgVersion {
    major: u64,
    minor: u64,
    patch: u64,
    pre: String,
    build: String,
    sem: semver::Version,
}

impl View for PkgVersion {
    type V = VersionV;

    closed spec fn view(&self) -> VersionV {
        VersionV {
            major: self.major,
            minor: self.minor,
            patch: self.patch,
            pre: self.pre@,
            build: self.build@,
        }
    }
}

/// What `semver::Version::parse` makes of a text: its parts, or `None` when
/// it refuses the text.
pub uninterp spec fn semver_parse(text: Seq<char>) -> Option<VersionV>;

/// `a < b` in `semver`'s total order on versions.
pub uninterp spec fn semver_lt(a: VersionV, b: VersionV) -> bool;

/// Whether `semver::VersionReq::parse` accepts a text.
pub uninterp spec fn semver_req_parses(text: Seq<char>) -> bool;

/// Whether the requirement parsed from `req` matches version `v`.
pub uninterp spec fn semver_req_matches(req: Seq<char>, v: VersionV) -> bool;

pub open spec fn triple_lt(a: VersionV, b: VersionV) -> bool {
    ||| a.major < b.major
    ||| (a.major == b.major && a.minor < b.minor)
    ||| (a.major == b.major && a.minor == b.minor && a.patch < b.patch)
}

pub open spec fn same_triple(a: VersionV, b: VersionV) -> bool {
    a.major == b.major && a.minor == b.minor && a.patch == b.patch
}

/// Wraps `semver::Version::parse`; the parts are copied out of the result.
#[verifier::external_body]
fn semver_parse_exec(text: &str) -> (r: Result<PkgVersion, semver::Error>)
    ensures
        match r {
            Ok(v) => semver_parse(text@) == Some(v@),
            Err(_) => semver_parse(text@) is None,
        },
{
    match semver::Version::parse(text) {
        Ok(v) => Ok(
            PkgVersion {
                major: v.major,
                minor: v.minor,
                patch: v.patch,
                pre: v.pre.as_str().to_string(),
                build: v.build.as_str().to_string(),
                sem: v,
            },
        ),
        Err(e) => Err(e),
    }
}

/// Wraps `semver::Version::new`, which makes a version without pre-release
/// or build metadata.
#[verifier::external_body]
fn semver_new_exec(major: u64, minor: u64, patch: u64) -> (r: PkgVersion)
    ensures
        r.major == major,
        r.minor == minor,
        r.patch == patch,
        r.pre@ == Seq::<char>::empty(),
        r.build@ == Seq::<char>::empty(),
{
    let v = semver::Version::new(major, minor, patch);
    PkgVersion { major, minor, patch, pre: String::new(), build: String::new(), sem: v }
}

/// Wraps `<semver::Version as PartialOrd>::lt`. `semver::Version` derives
/// its order field by field, so versions with different `major.minor.patch`
/// compare by those numbers, and the order is a strict total order.
#[verifier::external_body]
fn semver_lt_exec(a: &PkgVersion, b: &PkgVersion) -> (r: bool)
    ensures
        r == semver_lt(a@, b@),
        !same_triple(a@, b@) ==> (r == triple_lt(a@, b@)),
        r ==> !semver_lt(b@, a@),
        r ==> a@ != b@,
        !r ==> (a@ == b@ || semver_lt(b@, a@)),
{
    a.sem < b.sem
}

/// Wraps `<semver::Version as PartialEq>::eq`, which compares all five
/// parts.
#[verifier::external_body]
fn semver_eq_exec(a: &PkgVersion, b: &PkgVersion) -> (r: bool)
    ensures
        r == (a@ == b@),
{
    a.sem == b.sem
}

impl Clone for PkgVersion {
    fn clone(&self) -> (r: Self)
        ensures
            r@ == self@,
    {
        PkgVersion {
            major: self.major,
            minor: self.minor,
            patch: self.patch,
            pre: self.pre.clone(),
            build: self.build.clone(),
            sem: self.sem.clone(),
        }
    }
}

impl PartialEq for PkgVersion {
    fn eq(&self, other: &Self) -> (r: bool) {
        semver_eq_exec(self, other)
    }
}

impl PartialEqSpecImpl for PkgVersion {
    open spec fn obeys_eq_spec() -> bool {
        true
    }

    open spec fn eq_spec(&self, other: &PkgVersion) -> bool {
        self@ == other@
    }
}

/// Why a version text was refused.
#[derive(Debug)]
pub enum VersionError {
    Semver(semver::Error),
}

/// `major.minor.patch`, then `-pre` and `+build` when present: how `semver`
/// displays a version.
pub open spec fn render_version(v: VersionV) -> Seq<char> {
    dec(v.major as nat) + seq!['.'] + dec(v.minor as nat) + seq!['.'] + dec(v.patch as nat) + (
    if v.pre.len() > 0 {
        seq!['-'] + v.pre
    } else {
        seq![]
    }) + (if v.build.len() > 0 {
        seq!['+'] + v.build
    } else {
        seq![]
    })
}

impl PkgVersion {
    /// Parse a version, e.g. `20.11.0` or `1.0.0-rc.1+build.5`.
    pub fn parse(text: &str) -> (r: Result<PkgVersion, VersionError>)
        ensures
            match r {
                Ok(v) => semver_parse(text@) == Some(v@),
                Err(_) => semver_parse(text@) is None,
            },
    {
        match semver_parse_exec(text) {
            Ok(v) => Ok(v),
            Err(e) => Err(VersionError::Semver(e)),
        }
    }

    /// The version `major.minor.patch`, without pre-release or build.
    pub fn new(major: u64, minor: u64, patch: u64) -> (r: PkgVersion)
        ensures
            r@ == (VersionV {
                major,
                minor,
                patch,
                pre: Seq::<char>::empty(),
                build: Seq::<char>::empty(),
            }),
    {
        semver_new_exec(major, minor, patch)
    }

    /// `self < other` in semver order.
    pub fn lt(&self, other: &PkgVersion) -> (r: bool)
        ensures
            r == semver_lt(self@, other@),
            !same_triple(self@, other@) ==> (r == triple_lt(self@, other@)),
            r ==> !semver_lt(other@, self@),
            !r ==> (self@ == other@ || semver_lt(other@, self@)),
    {
        semver_lt_exec(self, other)
    }

    pub fn same(&self, other: &PkgVersion) -> (r: bool)
        ensures
            r == (self@ == other@),
    {
        semver_eq_exec(self, other)
    }

    pub fn is_prerelease(&self) -> (r: bool)
        ensures
            r == (self@.pre.len() > 0),
    {
        !self.pre.as_str().is_empty()
    }

    pub fn major(&self) -> (r: u64)
        ensures
            r == self@.major,
    {
        self.major
    }

    pub fn minor(&self) -> (r: u64)
        ensures
            r == self@.minor,
    {
        self.minor
    }

    pub fn patch(&self) -> (r: u64)
        ensures
            r == self@.patch,
    {
        self.patch
    }

    /// The pre-release part (empty for a release).
    pub fn pre(&self) -> (r: &str)
        ensures
            r@ == self@.pre,
    {
        self.pre.as_str()
    }

    /// The build metadata (empty when there is none).
    pub fn build(&self) -> (r: &str)
        ensures
            r@ == self@.build,
    {
        self.build.as_str()
    }

    /// The version as `semver` displays it (`to_string()`).
    pub fn to_text(&self) -> (r: String)
        ensures
            r@ == render_version(self@),
    {
        let mut out: Vec<char> = Vec::new();
        push_dec(&mut out, self.major);
        out.push('.');
        push_dec(&mut out, self.minor);
        out.push('.');
        push_dec(&mut out, self.patch);
        if !self.pre.as_str().is_empty() {
            out.push('-');
            push_str(&mut out, self.pre.as_str());
        }
        if !self.build.as_str().is_empty() {
            out.push('+');
            push_str(&mut out, self.build.as_str());
        }
        proof {
            assert(out@ =~= render_version(self@));
        }
        string_of(&out)
    }
}

// ── Requirements ─────────────────────────────────────────────────────

/// A version requirement such as `^20`, `>=1.22` or `*`.
#[derive(Debug)]
pub struct VersionConstraint {
    text: String,
    req: semver::VersionReq,
}

impl View for VersionConstraint {
    type V = Seq<char>;

    /// The text the requirement was parsed from.
    closed spec fn view(&self) -> Seq<char> {
        self.text@
    }
}

pub open spec fn star_text() -> Seq<char> {
    seq!['*']
}

/// Wraps `semver::VersionReq::parse`.
#[verifier::external_body]
fn semver_req_parse_exec(text: &str) -> (r: Result<VersionConstraint, semver::Error>)
    ensures
        match r {
            Ok(c) => c@ == text@ && semver_req_parses(text@),
            Err(_) => !semver_req_parses(text@),
        },
{
    match semver::VersionReq::parse(text) {
        Ok(req) => Ok(VersionConstraint { text: text.to_string(), req }),
        Err(e) => Err(e),
    }
}

/// `semver::VersionReq::STAR`, which `semver` documents as equal to
/// `VersionReq::parse("*")`.
#[verifier::external_body]
fn semver_req_star_exec() -> (r: VersionConstraint)
    ensures
        r@ == star_text(),
{
    VersionConstraint { text: "*".to_string(), req: semver::VersionReq::STAR }
}

/// Wraps `semver::VersionReq::matches`. `*` matches exactly the versions
/// without a pre-release part, as `semver` documents for `VersionReq::STAR`.
#[verifier::external_body]
fn semver_req_matches_exec(c: &VersionConstraint, v: &PkgVersion) -> (r: bool)
    ensures
        r == semver_req_matches(c@, v@),
        c@ == star_text() ==> (r == (v@.pre.len() == 0)),
{
    c.req.matches(&v.sem)
}

/// Whether the requirement parsed from a text equals `VersionReq::STAR`.
pub uninterp spec fn semver_req_is_star(text: Seq<char>) -> bool;

/// Wraps `<semver::VersionReq as PartialEq>::eq` against
/// `VersionReq::STAR`, which `semver` documents as equal to the parse of
/// `*`.
#[verifier::external_body]
fn semver_req_is_star_exec(c: &VersionConstraint) -> (r: bool)
    ensures
        r == semver_req_is_star(c@),
        c@ == star_text() ==> r,
{
    c.req == semver::VersionReq::STAR
}

impl Clone for VersionConstraint {
    fn clone(&self) -> (r: Self)
        ensures
            r@ == self@,
    {
        VersionConstraint { text: self.text.clone(), req: self.req.clone() }
    }
}

impl VersionConstraint {
    /// The requirement `*`, which every release version meets.
    pub fn star() -> (r: VersionConstraint)
        ensures
            r@ == star_text(),
    {
        semver_req_star_exec()
    }

    /// Parse a requirement.
    pub fn parse(text: &str) -> (r: Result<VersionConstraint, VersionError>)
        ensures
            match r {
                Ok(c) => c@ == text@ && semver_req_parses(text@),
                Err(_) => !semver_req_parses(text@),
            },
    {
        match semver_req_parse_exec(text) {
            Ok(c) => Ok(c),
            Err(e) => Err(VersionError::Semver(e)),
        }
    }

    pub fn matches(&self, v: &PkgVersion) -> (r: bool)
        ensures
            r == semver_req_matches(self@, v@),
            self@ == star_text() ==> (r == (v@.pre.len() == 0)),
    {
        semver_req_matches_exec(self, v)
    }

    /// The text this requirement was parsed from.
    pub fn text(&self) -> (r: &String)
        ensures
            r@ == self@,
    {
        &self.text
    }

    /// Whether this is the requirement `*` (`VersionReq::STAR`), however
    /// it was written.
    pub fn is_star(&self) -> (r: bool)
        ensures
            r == semver_req_is_star(self@),
            self@ == star_text() ==> r,
    {
        semver_req_is_star_exec(self)
    }
}

// ── Lists of versions ────────────────────────────────────────────────

pub open spec fn views(vs: Seq<PkgVersion>) -> Seq<VersionV> {
    vs.map_values(|v: PkgVersion| v@)
}

/// Newest first: no version comes before a newer one.
pub open spec fn newest_first(vs: Seq<VersionV>) -> bool {
    forall|i: int, j: int| 0 <= i < j < vs.len() ==> !semver_lt(#[trigger] vs[i], #[trigger] vs[j])
}

/// The newest-first order of two versions: `Less` when `a` is newer,
/// `Equal` when they are the same version, `Greater` when `a` is older.
fn newest_first_order(a: &PkgVersion, b: &PkgVersion) -> (r: Ordering)
    ensures
        (r == Ordering::Less) == semver_lt(b@, a@),
        (r == Ordering::Equal) == (a@ == b@),
        (r == Ordering::Greater) == semver_lt(a@, b@),
{
    if semver_lt_exec(b, a) {
        Ordering::Less
    } else if semver_eq_exec(a, b) {
        Ordering::Equal
    } else {
        Ordering::Greater
    }
}

/// Wraps `slice::sort_by` with [`newest_first_order`], a total order: a
/// stable sort that keeps every element and leaves no version before a
/// newer one.
#[verifier::external_body]
fn sort_newest_first_exec(vs: &mut Vec<PkgVersion>)
    ensures
        views(final(vs)@).to_multiset() == views(old(vs)@).to_multiset(),
        final(vs)@.len() == old(vs)@.len(),
        newest_first(views(final(vs)@)),
{
    vs.sort_by(|a, b| newest_first_order(a, b));
}

/// Sort versions newest first.
pub fn sort_newest_first(vs: &mut Vec<PkgVersion>)
    ensures
        views(final(vs)@).to_multiset() == views(old(vs)@).to_multiset(),
        final(vs)@.len() == old(vs)@.len(),
        newest_first(views(final(vs)@)),
{
    sort_newest_first_exec(vs)
}

/// `Vec::dedup`: runs of equal neighbours reduced to their first element.
pub open spec fn dedup_adjacent(vs: Seq<VersionV>) -> Seq<VersionV>
    decreases vs.len(),
{
    if vs.len() <= 1 {
        vs
    } else if vs.last() == vs[vs.len() - 2] {
        dedup_adjacent(vs.drop_last())
    } else {
        dedup_adjacent(vs.drop_last()).push(vs.last())
    }
}

/// Drop each version equal to the one before it.
pub fn dedup_versions(vs: Vec<PkgVersion>) -> (r: Vec<PkgVersion>)
    ensures
        views(r@) == dedup_adjacent(views(vs@)),
{
    let ghost all = views(vs@);
    let mut out: Vec<PkgVersion> = Vec::new();
    let mut i: usize = 0;
    proof {
        assert(all.take(0) =~= seq![]);
        assert(views(out@) =~= seq![]);
    }
    while i < vs.len()
        invariant
            i <= vs.len(),
            all == views(vs@),
            views(out@) == dedup_adjacent(all.take(i as int)),
        decreases vs.len() - i,
    {
        proof {
            assert(all.take(i + 1).drop_last() =~= all.take(i as int));
            assert(all.take(i + 1).last() == vs@[i as int]@);
        }
        if i == 0 || !vs[i].same(&vs[i - 1]) {
            let ghost before = out@;
            out.push(vs[i].clone());
            proof {
                assert(views(out@) =~= views(before).push(vs@[i as int]@));
                if i > 0 {
                    assert(all.take(i + 1)[i - 1] == vs@[i - 1]@);
                }
            }
        } else {
            proof {
                assert(all.take(i + 1)[i - 1] == vs@[i - 1]@);
            }
        }
        i += 1;
    }
    proof {
        assert(all.take(vs.len() as int) =~= all);
    }
    out
}

/// Index of the first version of `vs` without a pre-release part that
/// meets `req`, or `vs.len()`.
pub open spec fn first_release_match(vs: Seq<VersionV>, req: Seq<char>) -> int
    decreases vs.len(),
{
    if vs.len() == 0 {
        0
    } else if vs[0].pre.len() == 0 && semver_req_matches(req, vs[0]) {
        0
    } else {
        1 + first_release_match(vs.drop_first(), req)
    }
}

/// `first_release_match` is determined by where a matching release first
/// occurs.
pub proof fn lemma_first_release_match(vs: Seq<VersionV>, req: Seq<char>, i: int)
    requires
        0 <= i <= vs.len(),
        forall|j: int|
            0 <= j < i ==> !((#[trigger] vs[j]).pre.len() == 0 && semver_req_matches(req, vs[j])),
        i < vs.len() ==> vs[i].pre.len() == 0 && semver_req_matches(req, vs[i]),
    ensures
        first_release_match(vs, req) == i,
    decreases vs.len(),
{
    if vs.len() > 0 && !(vs[0].pre.len() == 0 && semver_req_matches(req, vs[0])) {
        assert forall|j: int| 0 <= j < i - 1 implies !((#[trigger] vs.drop_first()[j]).pre.len()
            == 0 && semver_req_matches(req, vs.drop_first()[j])) by {
            assert(vs.drop_first()[j] == vs[j + 1]);
        }
        lemma_first_release_match(vs.drop_first(), req, i - 1);
    }
}

/// The first version in `vs` that has no pre-release part and meets `req`.
pub fn first_release_matching(vs: &Vec<PkgVersion>, req: &VersionConstraint) -> (r: Option<PkgVersion>)
    ensures
        first_release_match(views(vs@), req@) <= vs@.len(),
        match r {
            Some(v) => first_release_match(views(vs@), req@) < vs@.len() && v@ == vs@[first_release_match(views(vs@), req@)]@,
            None => first_release_match(views(vs@), req@) == vs@.len(),
        },
{
    let ghost vv = views(vs@);
    let mut i: usize = 0;
    while i < vs.len()
        invariant
            i <= vs.len(),
            vv == views(vs@),
            forall|j: int|
                0 <= j < i ==> !((#[trigger] vv[j]).pre.len() == 0 && semver_req_matches(
                    req@,
                    vv[j],
                )),
        decreases vs.len() - i,
    {
        if !vs[i].is_prerelease() && req.matches(&vs[i]) {
            proof {
                lemma_first_release_match(vv, req@, i as int);
            }
            return Some(vs[i].clone());
        }
        proof {
            assert(vv[i as int] == vs@[i as int]@);
        }
        i += 1;
    }
    proof {
        lemma_first_release_match(vv, req@, i as int);
    }
    None
}

} // verus!
