//! Character-level text handling shared by every parser in the crate:
//! Unicode whitespace, trimming, splitting into words and lines, and
//! decimal rendering. Every executable routine here works on `Vec<char>`
//! and is proved against a spec function on `Seq<char>`.
use vstd::prelude::*;
use vstd::std_specs::iter::IteratorSpec;

verus! {

broadcast use vstd::string::group_string_axioms;

// ── Character classes ────────────────────────────────────────────────

/// Unicode `White_Space`, the set that `char::is_whitespace` tests.
pub open spec fn is_ws(c: char) -> bool {
    ||| c == '\t'
    ||| c == '\n'
    ||| c == '\u{0B}'
    ||| c == '\u{0C}'
    ||| c == '\r'
    ||| c == ' '
    ||| c == '\u{85}'
    ||| c == '\u{A0}'
    ||| c == '\u{1680}'
    ||| ('\u{2000}' <= c && c <= '\u{200A}')
    ||| c == '\u{2028}'
    ||| c == '\u{2029}'
    ||| c == '\u{202F}'
    ||| c == '\u{205F}'
    ||| c == '\u{3000}'
}

pub fn is_whitespace(c: char) -> (r: bool)
    ensures
        r == is_ws(c),
{
    c == '\t' || c == '\n' || c == '\u{0B}' || c == '\u{0C}' || c == '\r' || c == ' ' || c
        == '\u{85}' || c == '\u{A0}' || c == '\u{1680}' || ('\u{2000}' <= c && c <= '\u{200A}')
        || c == '\u{2028}' || c == '\u{2029}' || c == '\u{202F}' || c == '\u{205F}' || c
        == '\u{3000}'
}

pub open spec fn is_ascii_digit(c: char) -> bool {
    '0' <= c && c <= '9'
}

/// What a scan looks for: any whitespace character, or one given character.
pub enum CharClass {
    Whitespace,
    Exactly(char),
}

pub open spec fn in_class(k: CharClass, c: char) -> bool {
    match k {
        CharClass::Whitespace => is_ws(c),
        CharClass::Exactly(x) => c == x,
    }
}

pub open spec fn class_pred(k: CharClass) -> spec_fn(char) -> bool {
    |c: char| in_class(k, c)
}

pub fn in_class_exec(k: &CharClass, c: char) -> (r: bool)
    ensures
        r == in_class(*k, c),
{
    match k {
        CharClass::Whitespace => is_whitespace(c),
        CharClass::Exactly(x) => c == *x,
    }
}

// ── Scanning ─────────────────────────────────────────────────────────

/// Index of the first character of `s` satisfying `p`, or `s.len()`.
pub open spec fn first_idx(s: Seq<char>, p: spec_fn(char) -> bool) -> int
    decreases s.len(),
{
    if s.len() == 0 {
        0
    } else if p(s[0]) {
        0
    } else {
        1 + first_idx(s.drop_first(), p)
    }
}

/// `first_idx` is in range, skips only characters failing the predicate,
/// and stops at one satisfying it.
pub proof fn lemma_first_idx(s: Seq<char>, p: spec_fn(char) -> bool)
    ensures
        0 <= first_idx(s, p) <= s.len(),
        forall|j: int| 0 <= j < first_idx(s, p) ==> !p(#[trigger] s[j]),
        first_idx(s, p) < s.len() ==> p(s[first_idx(s, p)]),
    decreases s.len(),
{
    if s.len() > 0 && !p(s[0]) {
        lemma_first_idx(s.drop_first(), p);
        assert forall|j: int| 0 <= j < first_idx(s, p) implies !p(#[trigger] s[j]) by {
            if j > 0 {
                assert(s[j] == s.drop_first()[j - 1]);
            }
        }
    }
}

/// `first_idx` is determined by where the predicate first holds.
pub proof fn lemma_first_idx_char(s: Seq<char>, p: spec_fn(char) -> bool, i: int)
    requires
        0 <= i <= s.len(),
        forall|j: int| 0 <= j < i ==> !p(#[trigger] s[j]),
        i < s.len() ==> p(s[i]),
    ensures
        first_idx(s, p) == i,
    decreases s.len(),
{
    if s.len() > 0 && !p(s[0]) {
        assert forall|j: int| 0 <= j < i - 1 implies !p(#[trigger] s.drop_first()[j]) by {
            assert(s.drop_first()[j] == s[j + 1]);
        }
        lemma_first_idx_char(s.drop_first(), p, i - 1);
    }
}

/// Index of the first character of `v` in class `k`, or `v.len()`.
pub fn find_first(v: &Vec<char>, k: &CharClass) -> (r: usize)
    ensures
        r == first_idx(v@, class_pred(*k)),
        r <= v.len(),
{
    let mut i: usize = 0;
    while i < v.len()
        invariant
            i <= v.len(),
            forall|j: int| 0 <= j < i ==> !in_class(*k, #[trigger] v@[j]),
        decreases v.len() - i,
    {
        if in_class_exec(k, v[i]) {
            proof {
                lemma_first_idx_char(v@, class_pred(*k), i as int);
            }
            return i;
        }
        i += 1;
    }
    proof {
        lemma_first_idx_char(v@, class_pred(*k), i as int);
    }
    i
}

// ── Copying ranges ───────────────────────────────────────────────────

pub fn slice_chars(v: &Vec<char>, lo: usize, hi: usize) -> (r: Vec<char>)
    requires
        lo <= hi <= v.len(),
    ensures
        r@ == v@.subrange(lo as int, hi as int),
{
    let mut out: Vec<char> = Vec::new();
    let mut i = lo;
    while i < hi
        invariant
            lo <= i <= hi <= v.len(),
            out@ == v@.subrange(lo as int, i as int),
        decreases hi - i,
    {
        out.push(v[i]);
        proof {
            assert(out@ =~= v@.subrange(lo as int, i + 1));
        }
        i += 1;
    }
    out
}

pub fn concat_chars(a: &Vec<char>, b: &Vec<char>) -> (r: Vec<char>)
    ensures
        r@ == a@ + b@,
{
    let mut out = slice_chars(a, 0, a.len());
    let mut i: usize = 0;
    while i < b.len()
        invariant
            i <= b.len(),
            out@ == a@ + b@.take(i as int),
        decreases b.len() - i,
    {
        out.push(b[i]);
        proof {
            assert(out@ =~= a@ + b@.take(i + 1));
        }
        i += 1;
    }
    proof {
        assert(b@.take(b.len() as int) =~= b@);
        assert(a@.subrange(0, a.len() as int) =~= a@);
    }
    out
}

pub fn chars_eq(a: &Vec<char>, b: &Vec<char>) -> (r: bool)
    ensures
        r == (a@ == b@),
{
    if a.len() != b.len() {
        return false;
    }
    let mut i: usize = 0;
    while i < a.len()
        invariant
            a.len() == b.len(),
            i <= a.len(),
            forall|j: int| 0 <= j < i ==> a@[j] == b@[j],
        decreases a.len() - i,
    {
        if a[i] != b[i] {
            return false;
        }
        i += 1;
    }
    proof {
        assert(a@ =~= b@);
    }
    true
}

pub fn str_eq(a: &str, b: &str) -> (r: bool)
    ensures
        r == (a@ == b@),
{
    let x = chars_of(a);
    let y = chars_of(b);
    chars_eq(&x, &y)
}

pub fn starts_with(v: &Vec<char>, prefix: &Vec<char>) -> (r: bool)
    ensures
        r == (prefix@.len() <= v@.len() && v@.take(prefix@.len() as int) == prefix@),
{
    if prefix.len() > v.len() {
        return false;
    }
    let mut i: usize = 0;
    while i < prefix.len()
        invariant
            prefix.len() <= v.len(),
            i <= prefix.len(),
            forall|j: int| 0 <= j < i ==> v@[j] == prefix@[j],
        decreases prefix.len() - i,
    {
        if v[i] != prefix[i] {
            proof {
                assert(v@.take(prefix@.len() as int)[i as int] != prefix@[i as int]);
            }
            return false;
        }
        i += 1;
    }
    proof {
        assert(v@.take(prefix@.len() as int) =~= prefix@);
    }
    true
}

pub fn ends_with(v: &Vec<char>, suffix: &Vec<char>) -> (r: bool)
    ensures
        r == (suffix@.len() <= v@.len() && v@.skip(v@.len() - suffix@.len()) == suffix@),
{
    if suffix.len() > v.len() {
        return false;
    }
    let off = v.len() - suffix.len();
    let mut i: usize = 0;
    while i < suffix.len()
        invariant
            off + suffix.len() == v.len(),
            i <= suffix.len(),
            forall|j: int| 0 <= j < i ==> v@[off + j] == suffix@[j],
        decreases suffix.len() - i,
    {
        if v[off + i] != suffix[i] {
            proof {
                assert(v@.skip(off as int)[i as int] != suffix@[i as int]);
            }
            return false;
        }
        i += 1;
    }
    proof {
        assert(v@.skip(off as int) =~= suffix@);
    }
    true
}

pub fn contains_char(v: &Vec<char>, c: char) -> (r: bool)
    ensures
        r == v@.contains(c),
{
    let k = CharClass::Exactly(c);
    let i = find_first(v, &k);
    proof {
        lemma_first_idx(v@, class_pred(k));
        if v@.contains(c) {
            let j = choose|j: int| 0 <= j < v@.len() && v@[j] == c;
            assert(!(j < i));
        }
    }
    i < v.len()
}

// ── Trimming ─────────────────────────────────────────────────────────

pub open spec fn trim_start_by(s: Seq<char>, p: spec_fn(char) -> bool) -> Seq<char>
    decreases s.len(),
{
    if s.len() > 0 && p(s[0]) {
        trim_start_by(s.drop_first(), p)
    } else {
        s
    }
}

pub open spec fn trim_end_by(s: Seq<char>, p: spec_fn(char) -> bool) -> Seq<char>
    decreases s.len(),
{
    if s.len() > 0 && p(s.last()) {
        trim_end_by(s.drop_last(), p)
    } else {
        s
    }
}

pub open spec fn trim_by(s: Seq<char>, p: spec_fn(char) -> bool) -> Seq<char> {
    trim_end_by(trim_start_by(s, p), p)
}

pub open spec fn ws_pred() -> spec_fn(char) -> bool {
    |c: char| is_ws(c)
}

/// `str::trim_start`: leading Unicode whitespace removed.
pub open spec fn trim_start(s: Seq<char>) -> Seq<char> {
    trim_start_by(s, ws_pred())
}

/// `str::trim`: leading and trailing Unicode whitespace removed.
pub open spec fn trim(s: Seq<char>) -> Seq<char> {
    trim_by(s, ws_pred())
}

/// Trimming the front leaves a suffix of the text.
pub proof fn lemma_trim_start_len(s: Seq<char>, p: spec_fn(char) -> bool)
    ensures
        trim_start_by(s, p).len() <= s.len(),
        trim_start_by(s, p).len() > 0 ==> !p(trim_start_by(s, p)[0]),
        trim_start_by(s, p) == s.skip(s.len() - trim_start_by(s, p).len()),
    decreases s.len(),
{
    if s.len() > 0 && p(s[0]) {
        lemma_trim_start_len(s.drop_first(), p);
        assert(s.drop_first().skip(s.drop_first().len() - trim_start_by(s, p).len()) =~= s.skip(
            s.len() - trim_start_by(s, p).len(),
        ));
    } else {
        assert(s.skip(0) =~= s);
    }
}

/// Trim characters of class `k` from both ends.
pub fn trim_class(v: &Vec<char>, k: &CharClass) -> (r: Vec<char>)
    ensures
        r@ == trim_by(v@, class_pred(*k)),
{
    let ghost p = class_pred(*k);
    let mut i: usize = 0;
    proof {
        assert(v@.skip(0) =~= v@);
    }
    while i < v.len() && in_class_exec(k, v[i])
        invariant
            i <= v.len(),
            p == class_pred(*k),
            trim_start_by(v@, p) == trim_start_by(v@.skip(i as int), p),
        decreases v.len() - i,
    {
        proof {
            assert(v@.skip(i as int).drop_first() =~= v@.skip(i + 1));
            assert(v@.skip(i as int)[0] == v@[i as int]);
            assert(p(v@[i as int]));
        }
        i += 1;
    }
    let ghost t = v@.skip(i as int);
    proof {
        assert(trim_start_by(t, p) == t);
    }
    let mut j: usize = v.len();
    while j > i && in_class_exec(k, v[j - 1])
        invariant
            i <= j <= v.len(),
            p == class_pred(*k),
            t == v@.skip(i as int),
            trim_end_by(t, p) == trim_end_by(v@.subrange(i as int, j as int), p),
        decreases j,
    {
        proof {
            assert(v@.subrange(i as int, j as int).drop_last() =~= v@.subrange(
                i as int,
                j - 1,
            ));
            assert(v@.subrange(i as int, j as int).last() == v@[j - 1]);
            assert(p(v@[j - 1]));
        }
        j -= 1;
    }
    proof {
        assert(v@.subrange(i as int, v.len() as int) =~= t);
    }
    slice_chars(v, i, j)
}

pub fn trim_ws(v: &Vec<char>) -> (r: Vec<char>)
    ensures
        r@ == trim(v@),
{
    let k = CharClass::Whitespace;
    let r = trim_class(v, &k);
    proof {
        assert(class_pred(k) == ws_pred());
    }
    r
}

// ── Splitting ────────────────────────────────────────────────────────

/// `str::split_once(pred)`: the text before and after the first character
/// satisfying `p`, or `None` when there is none.
pub open spec fn split_once_by(s: Seq<char>, p: spec_fn(char) -> bool) -> Option<
    (Seq<char>, Seq<char>),
> {
    let i = first_idx(s, p);
    if i < s.len() {
        Some((s.take(i), s.skip(i + 1)))
    } else {
        None
    }
}

pub fn split_once_class(v: &Vec<char>, k: &CharClass) -> (r: Option<(Vec<char>, Vec<char>)>)
    ensures
        match r {
            Some((a, b)) => split_once_by(v@, class_pred(*k)) == Some((a@, b@)),
            None => split_once_by(v@, class_pred(*k)) is None,
        },
{
    let i = find_first(v, k);
    if i < v.len() {
        let a = slice_chars(v, 0, i);
        let b = slice_chars(v, i + 1, v.len());
        proof {
            assert(a@ =~= v@.take(i as int));
            assert(b@ =~= v@.skip(i + 1));
        }
        Some((a, b))
    } else {
        None
    }
}

/// `str::split_whitespace`: the maximal runs of non-whitespace characters.
pub open spec fn words(s: Seq<char>) -> Seq<Seq<char>>
    decreases s.len(),
{
    let t = trim_start(s);
    if t.len() == 0 {
        seq![]
    } else {
        let k = first_idx(t, ws_pred());
        proof {
            lemma_trim_start_len(s, ws_pred());
            lemma_first_idx(t, ws_pred());
        }
        seq![t.take(k)] + words(t.skip(k))
    }
}

/// A whitespace character in front does not change the words.
pub proof fn lemma_words_skip_ws(s: Seq<char>, i: int)
    requires
        0 <= i < s.len(),
        is_ws(s[i]),
    ensures
        words(s.skip(i)) == words(s.skip(i + 1)),
{
    assert(s.skip(i).drop_first() =~= s.skip(i + 1));
}

/// The words of `v`, each a fresh vector.
pub fn split_words(v: &Vec<char>) -> (r: Vec<Vec<char>>)
    ensures
        r@.len() == words(v@).len(),
        forall|j: int| 0 <= j < r@.len() ==> #[trigger] r@[j]@ == words(v@)[j],
{
    let mut out: Vec<Vec<char>> = Vec::new();
    let ghost done: Seq<Seq<char>> = seq![];
    let mut pos: usize = 0;
    let ws = CharClass::Whitespace;
    proof {
        assert(v@.skip(0) =~= v@);
        assert(class_pred(ws) == ws_pred());
    }
    while pos < v.len()
        invariant
            pos <= v.len(),
            class_pred(ws) == ws_pred(),
            ws == CharClass::Whitespace,
            out@.len() == done.len(),
            forall|j: int| 0 <= j < out@.len() ==> #[trigger] out@[j]@ == done[j],
            words(v@) == done + words(v@.skip(pos as int)),
        decreases v.len() - pos,
    {
        if is_whitespace(v[pos]) {
            proof {
                lemma_words_skip_ws(v@, pos as int);
            }
            pos += 1;
        } else {
            let ghost s = v@.skip(pos as int);
            let mut e = pos;
            while e < v.len() && !is_whitespace(v[e])
                invariant
                    pos <= e <= v.len(),
                    s == v@.skip(pos as int),
                    forall|j: int| pos <= j < e ==> !is_ws(#[trigger] v@[j]),
                decreases v.len() - e,
            {
                e += 1;
            }
            let w = slice_chars(v, pos, e);
            proof {
                assert(trim_start(s) == s);
                assert forall|j: int| 0 <= j < e - pos implies !ws_pred()(#[trigger] s[j]) by {
                    assert(s[j] == v@[pos + j]);
                }
                if e < v.len() {
                    assert(s[e - pos] == v@[e as int]);
                }
                lemma_first_idx_char(s, ws_pred(), e - pos);
                assert(s.take(e - pos) =~= w@);
                assert(s.skip(e - pos) =~= v@.skip(e as int));
                assert(words(s) == seq![w@] + words(v@.skip(e as int)));
                assert(done + words(s) =~= done.push(w@) + words(v@.skip(e as int)));
                done = done.push(w@);
            }
            out.push(w);
            pos = e;
        }
    }
    proof {
        assert(trim_start(v@.skip(pos as int)).len() == 0);
        assert(done + words(v@.skip(pos as int)) =~= done);
    }
    out
}

// ── Lines ────────────────────────────────────────────────────────────

pub open spec fn nl_pred() -> spec_fn(char) -> bool {
    |c: char| c == '\n'
}

/// A line's trailing carriage return, dropped when the line ended in `\n`.
pub open spec fn strip_cr(s: Seq<char>) -> Seq<char> {
    if s.len() > 0 && s.last() == '\r' {
        s.drop_last()
    } else {
        s
    }
}

/// `str::lines`: split at `\n`; a `\r` right before the `\n` is dropped;
/// a final line ending adds no empty line.
pub open spec fn lines(s: Seq<char>) -> Seq<Seq<char>>
    decreases s.len(),
{
    if s.len() == 0 {
        seq![]
    } else {
        let k = first_idx(s, nl_pred());
        proof {
            lemma_first_idx(s, nl_pred());
        }
        if k < s.len() {
            seq![strip_cr(s.take(k))] + lines(s.skip(k + 1))
        } else {
            seq![s]
        }
    }
}

/// The lines of `v`, each a fresh vector.
pub fn split_lines(v: &Vec<char>) -> (r: Vec<Vec<char>>)
    ensures
        r@.len() == lines(v@).len(),
        forall|j: int| 0 <= j < r@.len() ==> #[trigger] r@[j]@ == lines(v@)[j],
{
    let mut out: Vec<Vec<char>> = Vec::new();
    let ghost done: Seq<Seq<char>> = seq![];
    let mut pos: usize = 0;
    proof {
        assert(v@.skip(0) =~= v@);
    }
    while pos < v.len()
        invariant
            pos <= v.len(),
            out@.len() == done.len(),
            forall|j: int| 0 <= j < out@.len() ==> #[trigger] out@[j]@ == done[j],
            lines(v@) == done + lines(v@.skip(pos as int)),
        decreases v.len() - pos,
    {
        let ghost s = v@.skip(pos as int);
        let mut e = pos;
        while e < v.len() && v[e] != '\n'
            invariant
                pos <= e <= v.len(),
                s == v@.skip(pos as int),
                forall|j: int| pos <= j < e ==> #[trigger] v@[j] != '\n',
            decreases v.len() - e,
        {
            e += 1;
        }
        proof {
            assert forall|j: int| 0 <= j < e - pos implies !nl_pred()(#[trigger] s[j]) by {
                assert(s[j] == v@[pos + j]);
            }
            if e < v.len() {
                assert(s[e - pos] == v@[e as int]);
            }
            lemma_first_idx_char(s, nl_pred(), e - pos);
        }
        let mut line_end = e;
        if line_end > pos && e < v.len() && v[line_end - 1] == '\r' {
            line_end = line_end - 1;
        }
        let line = slice_chars(v, pos, line_end);
        if e < v.len() {
            proof {
                assert(strip_cr(s.take(e - pos)) =~= line@);
                assert(s.skip(e - pos + 1) =~= v@.skip(e + 1));
                assert(done + lines(s) =~= done.push(line@) + lines(v@.skip(e + 1)));
                done = done.push(line@);
            }
            out.push(line);
            pos = e + 1;
        } else {
            proof {
                assert(line@ =~= s);
                assert(lines(v@.skip(e as int)) =~= seq![]);
                assert(done + lines(s) =~= done.push(line@) + lines(v@.skip(e as int)));
                done = done.push(line@);
            }
            out.push(line);
            pos = e;
        }
    }
    proof {
        assert(done + lines(v@.skip(pos as int)) =~= done);
    }
    out
}

// ── Conversions between `String` and `Vec<char>` ───────────────────

/// The characters of `s`, in order.
pub fn chars_of(s: &str) -> (r: Vec<char>)
    ensures
        r@ == s@,
{
    let mut out: Vec<char> = Vec::new();
    let mut it = s.chars();
    loop
        invariant
            out@ + it.remaining() == s@,
            it.obeys_prophetic_iter_laws(),
            it.decrease() is Some,
        decreases it.decrease()->0,
    {
        match it.next() {
            Some(c) => {
                out.push(c);
                proof {
                    assert(out@ + it.remaining() =~= s@);
                }
            },
            None => {
                proof {
                    assert(out@ =~= s@);
                }
                return out;
            },
        }
    }
}

/// Wraps `String::push`.
#[verifier::external_body]
fn string_push(s: &mut String, c: char)
    ensures
        final(s)@ == old(s)@.push(c),
{
    s.push(c);
}

pub fn string_of(v: &Vec<char>) -> (r: String)
    ensures
        r@ == v@,
{
    let mut s = String::new();
    let mut i: usize = 0;
    while i < v.len()
        invariant
            i <= v.len(),
            s@ == v@.take(i as int),
        decreases v.len() - i,
    {
        string_push(&mut s, v[i]);
        proof {
            assert(s@ =~= v@.take(i + 1));
        }
        i += 1;
    }
    proof {
        assert(v@.take(v.len() as int) =~= v@);
    }
    s
}

/// Appends the characters of `s` to `out`.
pub fn push_str(out: &mut Vec<char>, s: &str)
    ensures
        final(out)@ == old(out)@ + s@,
{
    let c = chars_of(s);
    let mut i: usize = 0;
    while i < c.len()
        invariant
            i <= c.len(),
            c@ == s@,
            out@ == old(out)@ + c@.take(i as int),
        decreases c.len() - i,
    {
        out.push(c[i]);
        proof {
            assert(out@ =~= old(out)@ + c@.take(i + 1));
        }
        i += 1;
    }
    proof {
        assert(c@.take(c.len() as int) =~= c@);
    }
}

/// Appends the characters of `src` to `out`.
pub fn push_chars(out: &mut Vec<char>, src: &Vec<char>)
    ensures
        final(out)@ == old(out)@ + src@,
{
    let mut i: usize = 0;
    while i < src.len()
        invariant
            i <= src.len(),
            out@ == old(out)@ + src@.take(i as int),
        decreases src.len() - i,
    {
        out.push(src[i]);
        proof {
            assert(out@ =~= old(out)@ + src@.take(i + 1));
        }
        i += 1;
    }
    proof {
        assert(src@.take(src.len() as int) =~= src@);
    }
}

// ── Regular expressions ──────────────────────────────────────────────

/// Whether the `regex` crate's pattern `pattern` matches the text made of
/// the one character `c`.
pub uninterp spec fn regex_matches_char(pattern: Seq<char>, c: char) -> bool;

/// The pattern of one `\w` character: Unicode word characters, which on
/// ASCII are `[0-9A-Za-z_]`.
pub open spec fn word_pattern() -> Seq<char> {
    seq!['\\', 'A', '\\', 'w', '\\', 'z']
}

/// The pattern of one `\d` character: `\p{Nd}`, which on ASCII is `[0-9]`.
pub open spec fn digit_pattern() -> Seq<char> {
    seq!['\\', 'A', '\\', 'd', '\\', 'z']
}

/// Wraps `regex::Regex::new(pattern)` and `Regex::is_match` on the text
/// of the single character `c`; a pattern that does not compile matches
/// nothing. The `regex` documentation defines `\d` as `\p{Nd}`, whose
/// only ASCII members are `0`..=`9`.
#[verifier::external_body]
pub(crate) fn regex_char_match(pattern: &str, c: char) -> (r: bool)
    ensures
        r == regex_matches_char(pattern@, c),
        pattern@ == digit_pattern() && (c as u32) < 128 ==> (r == ('0' <= c && c <= '9')),
{
    let mut buf = [0u8; 4];
    match regex::Regex::new(pattern) {
        Ok(re) => re.is_match(c.encode_utf8(&mut buf)),
        Err(_) => false,
    }
}

// ── Decimal and hexadecimal rendering ───────────────────────────────

pub open spec fn digit_char(d: nat) -> char {
    if d == 0 {
        '0'
    } else if d == 1 {
        '1'
    } else if d == 2 {
        '2'
    } else if d == 3 {
        '3'
    } else if d == 4 {
        '4'
    } else if d == 5 {
        '5'
    } else if d == 6 {
        '6'
    } else if d == 7 {
        '7'
    } else if d == 8 {
        '8'
    } else if d == 9 {
        '9'
    } else if d == 10 {
        'a'
    } else if d == 11 {
        'b'
    } else if d == 12 {
        'c'
    } else if d == 13 {
        'd'
    } else if d == 14 {
        'e'
    } else {
        'f'
    }
}

fn digit(d: u64) -> (c: char)
    requires
        d < 16,
    ensures
        c == digit_char(d as nat),
{
    if d == 0 {
        '0'
    } else if d == 1 {
        '1'
    } else if d == 2 {
        '2'
    } else if d == 3 {
        '3'
    } else if d == 4 {
        '4'
    } else if d == 5 {
        '5'
    } else if d == 6 {
        '6'
    } else if d == 7 {
        '7'
    } else if d == 8 {
        '8'
    } else if d == 9 {
        '9'
    } else if d == 10 {
        'a'
    } else if d == 11 {
        'b'
    } else if d == 12 {
        'c'
    } else if d == 13 {
        'd'
    } else if d == 14 {
        'e'
    } else {
        'f'
    }
}

/// The numeral of `n` in base `b` (2..=16), as `{}` / `{:x}` print it.
pub open spec fn numeral(n: nat, b: nat) -> Seq<char>
    decreases n,
{
    if b < 2 || n < b {
        seq![digit_char(n)]
    } else {
        proof {
            assert(n / b < n) by (nonlinear_arith)
                requires
                    b >= 2,
                    n >= b,
            ;
        }
        numeral(n / b, b).push(digit_char(n % b))
    }
}

/// Decimal numeral of `n`, as `format!("{}", n)` prints it.
pub open spec fn dec(n: nat) -> Seq<char> {
    numeral(n, 10)
}

pub fn push_numeral(out: &mut Vec<char>, n: u64, b: u64)
    requires
        2 <= b <= 16,
    ensures
        final(out)@ == old(out)@ + numeral(n as nat, b as nat),
    decreases n,
{
    if n < b {
        out.push(digit(n));
        proof {
            assert(old(out)@ + numeral(n as nat, b as nat) =~= old(out)@.push(digit_char(n as nat)));
        }
    } else {
        assert(n / b < n) by (nonlinear_arith)
            requires
                b >= 2,
                n >= b,
        ;
        push_numeral(out, n / b, b);
        out.push(digit(n % b));
        proof {
            assert(old(out)@ + numeral(n as nat, b as nat) =~= old(out)@ + numeral(
                (n / b) as nat,
                b as nat,
            ) + seq![digit_char((n % b) as nat)]);
        }
    }
}

pub fn push_dec(out: &mut Vec<char>, n: u64)
    ensures
        final(out)@ == old(out)@ + dec(n as nat),
{
    push_numeral(out, n, 10);
}

} // verus!
