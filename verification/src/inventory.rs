//! Remote version discovery: the versions a dist server lists for a
//! project, and the best one for a requirement. Fetching `versions.txt` is
//! the caller's job; this module reads its text.
use vstd::prelude::*;

use crate::text::{
    digit_pattern, regex_char_match, regex_matches_char, chars_of, first_idx, lemma_first_idx, lemma_first_idx_char, lines, split_lines, string_of, trim,
    trim_ws,
};
use crate::version::{
    dedup_adjacent, dedup_versions, first_release_match, first_release_matching, newest_first,
    semver_lt, semver_parse, semver_req_matches, sort_newest_first, views, PkgVersion,
    VersionConstraint, VersionV,
};

verus! {

broadcast use vstd::string::group_string_axioms;

/// Whether `c` is a `\d` digit of the `regex` crate.
pub open spec fn regex_decimal_digit(c: char) -> bool {
    regex_matches_char(digit_pattern(), c)
}

fn regex_decimal_digit_exec(c: char) -> (r: bool)
    ensures
        r == regex_decimal_digit(c),
{
    let p = "\\A\\d\\z";
    proof {
        reveal_strlit("\\A\\d\\z");
        assert(p@ =~= digit_pattern());
    }
    regex_char_match(p, c)
}

pub open spec fn all_digits(s: Seq<char>) -> bool {
    forall|i: int| 0 <= i < s.len() ==> regex_decimal_digit(#[trigger] s[i])
}

pub open spec fn all_lower(s: Seq<char>) -> bool {
    forall|i: int| 0 <= i < s.len() ==> 'a' <= #[trigger] s[i] <= 'z'
}

pub open spec fn dot_pred() -> spec_fn(char) -> bool {
    |c: char| c == '.'
}

/// `t` has the shape `\d+\.\d+\.\d+`.
pub open spec fn triple_shape(t: Seq<char>) -> bool {
    let i = first_idx(t, dot_pred());
    let rest = t.skip(i + 1);
    let j = first_idx(rest, dot_pred());
    &&& 0 < i < t.len()
    &&& 0 < j
    &&& j + 1 < rest.len()
    &&& all_digits(t.take(i))
    &&& all_digits(rest.take(j))
    &&& all_digits(rest.skip(j + 1))
}

/// Neither a `\d` digit nor a dot: where the numeric part of a version ends.
pub open spec fn stops_numeric() -> spec_fn(char) -> bool {
    |c: char| !(regex_decimal_digit(c) || c == '.')
}

/// A version in OpenSSL's letter-suffixed scheme, `^(\d+\.\d+\.\d+)([a-z]+)$`:
/// its numeric part and its letters.
pub open spec fn letter_split(s: Seq<char>) -> Option<(Seq<char>, Seq<char>)> {
    let n = first_idx(s, stops_numeric());
    if n < s.len() && triple_shape(s.take(n)) && all_lower(s.skip(n)) {
        Some((s.take(n), s.skip(n)))
    } else {
        None
    }
}

/// What a dist-server version string means: a semver version, or else a
/// letter-suffixed one read as `x.y.z+letters` (the letters kept as build
/// metadata).
pub open spec fn dist_version(s: Seq<char>) -> Option<VersionV> {
    match semver_parse(s) {
        Some(v) => Some(v),
        None => match letter_split(s) {
            Some((t, l)) => semver_parse(t + seq!['+'] + l),
            None => None,
        },
    }
}

fn all_digits_exec(v: &Vec<char>, lo: usize, hi: usize) -> (r: bool)
    requires
        lo <= hi <= v.len(),
    ensures
        r == all_digits(v@.subrange(lo as int, hi as int)),
{
    let ghost s = v@.subrange(lo as int, hi as int);
    let mut i = lo;
    while i < hi
        invariant
            lo <= i <= hi <= v.len(),
            s == v@.subrange(lo as int, hi as int),
            forall|k: int| 0 <= k < i - lo ==> regex_decimal_digit(#[trigger] s[k]),
        decreases hi - i,
    {
        if !regex_decimal_digit_exec(v[i]) {
            proof {
                assert(s[i - lo] == v@[i as int]);
            }
            return false;
        }
        proof {
            assert(s[i - lo] == v@[i as int]);
        }
        i += 1;
    }
    true
}

fn first_dot_from(v: &Vec<char>, lo: usize, hi: usize) -> (r: usize)
    requires
        lo <= hi <= v.len(),
    ensures
        lo <= r <= hi,
        r - lo == first_idx(v@.subrange(lo as int, hi as int), dot_pred()),
{
    let ghost s = v@.subrange(lo as int, hi as int);
    let mut i = lo;
    while i < hi && v[i] != '.'
        invariant
            lo <= i <= hi <= v.len(),
            s == v@.subrange(lo as int, hi as int),
            forall|k: int| 0 <= k < i - lo ==> !dot_pred()(#[trigger] s[k]),
        decreases hi - i,
    {
        proof {
            assert(s[i - lo] == v@[i as int]);
        }
        i += 1;
    }
    proof {
        if i < hi {
            assert(s[i - lo] == v@[i as int]);
        }
        lemma_first_idx_char(s, dot_pred(), i - lo);
    }
    i
}

fn triple_shape_exec(v: &Vec<char>, n: usize) -> (r: bool)
    requires
        n <= v.len(),
    ensures
        r == triple_shape(v@.take(n as int)),
{
    let ghost t = v@.take(n as int);
    let i = first_dot_from(v, 0, n);
    proof {
        assert(v@.subrange(0, n as int) =~= t);
    }
    if i == 0 || i >= n {
        return false;
    }
    let j = first_dot_from(v, i + 1, n);
    let ghost rest = t.skip(i + 1);
    proof {
        assert(v@.subrange(i + 1, n as int) =~= rest);
    }
    if j == i + 1 || n - j <= 1 {
        return false;
    }
    let a = all_digits_exec(v, 0, i);
    let b = all_digits_exec(v, i + 1, j);
    let c = all_digits_exec(v, j + 1, n);
    proof {
        assert(v@.subrange(0, i as int) =~= t.take(i as int));
        assert(v@.subrange(i + 1, j as int) =~= rest.take(j - i - 1));
        assert(v@.subrange(j + 1, n as int) =~= rest.skip(j - i));
    }
    a && b && c
}

fn letter_split_exec(v: &Vec<char>) -> (r: Option<(Vec<char>, Vec<char>)>)
    ensures
        match r {
            Some((t, l)) => letter_split(v@) == Some((t@, l@)),
            None => letter_split(v@) is None,
        },
{
    let mut n: usize = 0;
    while n < v.len() && (regex_decimal_digit_exec(v[n]) || v[n] == '.')
        invariant
            n <= v.len(),
            forall|k: int| 0 <= k < n ==> !stops_numeric()(#[trigger] v@[k]),
        decreases v.len() - n,
    {
        n += 1;
    }
    proof {
        lemma_first_idx_char(v@, stops_numeric(), n as int);
    }
    if n >= v.len() || !triple_shape_exec(v, n) {
        return None;
    }
    let mut k = n;
    while k < v.len()
        invariant
            n <= k <= v.len(),
            n < v.len(),
            first_idx(v@, stops_numeric()) == n,
            triple_shape(v@.take(n as int)),
            forall|m: int| n <= m < k ==> 'a' <= #[trigger] v@[m] <= 'z',
        decreases v.len() - k,
    {
        if !('a' <= v[k] && v[k] <= 'z') {
            proof {
                assert(v@.skip(n as int)[k - n] == v@[k as int]);
            }
            return None;
        }
        k += 1;
    }
    let t = crate::text::slice_chars(v, 0, n);
    let l = crate::text::slice_chars(v, n, v.len());
    proof {
        assert(t@ =~= v@.take(n as int));
        assert(l@ =~= v@.skip(n as int));
        assert forall|m: int| 0 <= m < l@.len() implies 'a' <= #[trigger] l@[m] <= 'z' by {
            assert(l@[m] == v@[n + m]);
        }
    }
    Some((t, l))
}

/// Parse a dist-server version string, tolerating OpenSSL's pre-3.0
/// letter-suffixed scheme: `1.1.1w` is not semver and is read as
/// `1.1.1+w`, keeping the letter as build metadata.
pub fn parse_dist_version(ver_str: &str) -> (r: Option<PkgVersion>)
    ensures
        match r {
            Some(v) => dist_version(ver_str@) == Some(v@),
            None => dist_version(ver_str@) is None,
        },
{
    match PkgVersion::parse(ver_str) {
        Ok(v) => return Some(v),
        Err(_) => {},
    }
    let chars = chars_of(ver_str);
    match letter_split_exec(&chars) {
        Some((t, l)) => {
            let ghost tv = t@;
            let mut text = t;
            text.push('+');
            crate::text::push_chars(&mut text, &l);
            let s = string_of(&text);
            proof {
                assert(s@ =~= tv + seq!['+'] + l@);
            }
            match PkgVersion::parse(s.as_str()) {
                Ok(v) => Some(v),
                Err(_) => None,
            }
        },
        None => None,
    }
}

// ── versions.txt ─────────────────────────────────────────────────────

pub open spec fn plus_pred() -> spec_fn(char) -> bool {
    |c: char| c == '+'
}

/// A listing line's version part: the trimmed line up to its first `+`
/// (lines may carry `+os+arch` suffixes).
pub open spec fn line_version_text(line: Seq<char>) -> Seq<char> {
    let t = trim(line);
    t.take(first_idx(t, plus_pred()))
}

/// The versions of a listing's lines, in order: blank lines and lines
/// that hold no version are skipped.
pub open spec fn listed_versions(ls: Seq<Seq<char>>) -> Seq<VersionV>
    decreases ls.len(),
{
    if ls.len() == 0 {
        seq![]
    } else {
        let prev = listed_versions(ls.drop_last());
        let t = trim(ls.last());
        if t.len() == 0 {
            prev
        } else {
            match dist_version(line_version_text(ls.last())) {
                Some(v) => prev.push(v),
                None => prev,
            }
        }
    }
}

/// The versions a `versions.txt` body lists, newest first, each once.
pub fn versions_from_listing(body: &str) -> (r: Vec<PkgVersion>)
    ensures
        exists|s: Seq<VersionV>|
            {
                &&& #[trigger] s.to_multiset() == listed_versions(lines(body@)).to_multiset()
                &&& newest_first(s)
                &&& views(r@) == dedup_adjacent(s)
            },
{
    let text = chars_of(body);
    let ls = split_lines(&text);
    let ghost all = lines(body@);
    let mut found: Vec<PkgVersion> = Vec::new();
    let mut i: usize = 0;
    proof {
        assert(all.take(0) =~= seq![]);
        assert(views(found@) =~= seq![]);
    }
    while i < ls.len()
        invariant
            i <= ls.len(),
            all == lines(body@),
            ls@.len() == all.len(),
            forall|j: int| 0 <= j < ls@.len() ==> #[trigger] ls@[j]@ == all[j],
            views(found@) == listed_versions(all.take(i as int)),
        decreases ls.len() - i,
    {
        proof {
            assert(all.take(i + 1).drop_last() =~= all.take(i as int));
            assert(all.take(i + 1).last() == ls@[i as int]@);
        }
        let t = trim_ws(&ls[i]);
        if t.len() > 0 {
            let plus = crate::text::find_first(&t, &crate::text::CharClass::Exactly('+'));
            let head = crate::text::slice_chars(&t, 0, plus);
            proof {
                assert(crate::text::class_pred(crate::text::CharClass::Exactly('+')) =~= plus_pred());
                assert(head@ =~= line_version_text(ls@[i as int]@));
            }
            let hs = string_of(&head);
            match parse_dist_version(hs.as_str()) {
                Some(v) => {
                    let ghost before = found@;
                    found.push(v);
                    proof {
                        assert(views(found@) =~= views(before).push(found@.last()@));
                    }
                },
                None => {},
            }
        }
        i += 1;
    }
    proof {
        assert(all.take(ls.len() as int) =~= all);
    }
    let ghost parsed = views(found@);
    sort_newest_first(&mut found);
    let ghost sorted = views(found@);
    let r = dedup_versions(found);
    proof {
        assert(sorted.to_multiset() == parsed.to_multiset());
        assert(views(r@) == dedup_adjacent(sorted));
    }
    r
}

/// The newest release (no pre-release part) meeting `constraint`, from a
/// newest-first list of available versions.
pub fn best_match(versions: &Vec<PkgVersion>, constraint: &VersionConstraint) -> (r: Option<
    PkgVersion,
>)
    ensures
        match r {
            Some(v) => first_release_match(views(versions@), constraint@) < versions@.len()
                && v@ == versions@[first_release_match(views(versions@), constraint@)]@,
            None => first_release_match(views(versions@), constraint@) == versions@.len(),
        },
{
    first_release_matching(versions, constraint)
}

/// In a newest-first list, the version `best_match` picks is a release
/// that meets the requirement, and no other such release is newer.
pub proof fn lemma_best_match_is_newest(vs: Seq<VersionV>, req: Seq<char>)
    requires
        newest_first(vs),
    ensures
        ({
            let i = first_release_match(vs, req);
            &&& 0 <= i <= vs.len()
            &&& i < vs.len() ==> vs[i].pre.len() == 0 && semver_req_matches(req, vs[i])
            &&& forall|j: int|
                0 <= j < vs.len() && j != i && vs[j].pre.len() == 0 && semver_req_matches(req, vs[j])
                    ==> i < j && !semver_lt(vs[i], vs[j])
        }),
    decreases vs.len(),
{
    if vs.len() > 0 && !(vs[0].pre.len() == 0 && semver_req_matches(req, vs[0])) {
        let t = vs.drop_first();
        assert(newest_first(t)) by {
            assert forall|a: int, b: int| 0 <= a < b < t.len() implies !semver_lt(
                #[trigger] t[a],
                #[trigger] t[b],
            ) by {
                assert(t[a] == vs[a + 1] && t[b] == vs[b + 1]);
            }
        }
        lemma_best_match_is_newest(t, req);
        let i = first_release_match(vs, req);
        assert forall|j: int|
            0 <= j < vs.len() && j != i && vs[j].pre.len() == 0 && semver_req_matches(req, vs[j])
                implies i < j && !semver_lt(vs[i], vs[j]) by {
            assert(j > 0);
            assert(t[j - 1] == vs[j]);
        }
        if i < vs.len() {
            assert(t[i - 1] == vs[i]);
        }
    }
}

/// Index of the first version of `vs` without a pre-release part, or
/// `vs.len()`.
pub open spec fn first_release(vs: Seq<VersionV>) -> int
    decreases vs.len(),
{
    if vs.len() == 0 {
        0
    } else if vs[0].pre.len() == 0 {
        0
    } else {
        1 + first_release(vs.drop_first())
    }
}

proof fn lemma_first_release(vs: Seq<VersionV>, i: int)
    requires
        0 <= i <= vs.len(),
        forall|j: int| 0 <= j < i ==> (#[trigger] vs[j]).pre.len() > 0,
        i < vs.len() ==> vs[i].pre.len() == 0,
    ensures
        first_release(vs) == i,
    decreases vs.len(),
{
    if vs.len() > 0 && vs[0].pre.len() > 0 {
        assert forall|j: int| 0 <= j < i - 1 implies (#[trigger] vs.drop_first()[j]).pre.len()
            > 0 by {
            assert(vs.drop_first()[j] == vs[j + 1]);
        }
        lemma_first_release(vs.drop_first(), i - 1);
    }
}

/// The newest release (no pre-release part) of a newest-first list.
pub fn latest_version(versions: &Vec<PkgVersion>) -> (r: Option<PkgVersion>)
    ensures
        match r {
            Some(v) => first_release(views(versions@)) < versions@.len() && v@ == versions@[first_release(views(versions@))]@,
            None => first_release(views(versions@)) == versions@.len(),
        },
{
    let ghost vv = views(versions@);
    let mut i: usize = 0;
    while i < versions.len()
        invariant
            i <= versions.len(),
            vv == views(versions@),
            forall|j: int| 0 <= j < i ==> (#[trigger] vv[j]).pre.len() > 0,
        decreases versions.len() - i,
    {
        if !versions[i].is_prerelease() {
            proof {
                lemma_first_release(vv, i as int);
            }
            return Some(versions[i].clone());
        }
        proof {
            assert(vv[i as int] == versions@[i as int]@);
        }
        i += 1;
    }
    proof {
        lemma_first_release(vv, i as int);
    }
    None
}

} // verus!
