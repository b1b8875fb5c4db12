//! The Bucketfile format: a line-oriented list of directives (`FROM`,
//! `ENV`, `COPY`, `RUN`, `WORKDIR`, `ENTRYPOINT`/`CMD`), and the plan that
//! building one turns into.
use vstd::prelude::*;

use crate::config::Config;
use crate::keyed::{assoc_insert, clone_string_map, KeyedMap};
use crate::paths::{join, join_chars};
use crate::text::{
    dec, push_dec,
    chars_of, class_pred, split_lines, split_once_by, split_once_class, split_words, string_of,
    trim, trim_by, trim_class, trim_ws, words, ws_pred, lines, CharClass, push_str, push_chars,
    trim_start_by, slice_chars, is_ws, trim_end_by, trim_start, lemma_first_idx_char, nl_pred,
    strip_cr,
};

verus! {

broadcast use vstd::string::group_string_axioms;

/// One parsed Bucketfile line.
#[derive(Debug, Clone)]
pub enum BucketfileDirective {
    From(Vec<String>),
    Env(String, String),
    Copy(String, String),
    Run(String),
    Workdir(String),
    Entrypoint(String),
}

/// A directive with its text as character sequences.
pub enum DirectiveV {
    From(Seq<Seq<char>>),
    Env(Seq<char>, Seq<char>),
    Copy(Seq<char>, Seq<char>),
    Run(Seq<char>),
    Workdir(Seq<char>),
    Entrypoint(Seq<char>),
}

pub open spec fn strings_view(v: Seq<String>) -> Seq<Seq<char>> {
    Seq::new(v.len(), |i: int| v[i]@)
}

impl View for BucketfileDirective {
    type V = DirectiveV;

    open spec fn view(&self) -> DirectiveV {
        match self {
            BucketfileDirective::From(v) => DirectiveV::From(strings_view(v@)),
            BucketfileDirective::Env(k, v) => DirectiveV::Env(k@, v@),
            BucketfileDirective::Copy(s, d) => DirectiveV::Copy(s@, d@),
            BucketfileDirective::Run(c) => DirectiveV::Run(c@),
            BucketfileDirective::Workdir(w) => DirectiveV::Workdir(w@),
            BucketfileDirective::Entrypoint(c) => DirectiveV::Entrypoint(c@),
        }
    }
}

/// Why a Bucketfile was refused; `line` counts from 1.
#[derive(Debug, Clone)]
pub enum BucketfileError {
    InvalidEnv { line: usize, text: String },
    InvalidCopy { line: usize, text: String },
    EmptyRun { line: usize },
    EmptyWorkdir { line: usize },
    EmptyEntrypoint { line: usize },
    UnknownDirective { line: usize, directive: String },
}

pub enum BucketfileErrorV {
    InvalidEnv(nat, Seq<char>),
    InvalidCopy(nat, Seq<char>),
    EmptyRun(nat),
    EmptyWorkdir(nat),
    EmptyEntrypoint(nat),
    UnknownDirective(nat, Seq<char>),
}

impl View for BucketfileError {
    type V = BucketfileErrorV;

    open spec fn view(&self) -> BucketfileErrorV {
        match self {
            BucketfileError::InvalidEnv { line, text } => BucketfileErrorV::InvalidEnv(
                *line as nat,
                text@,
            ),
            BucketfileError::InvalidCopy { line, text } => BucketfileErrorV::InvalidCopy(
                *line as nat,
                text@,
            ),
            BucketfileError::EmptyRun { line } => BucketfileErrorV::EmptyRun(*line as nat),
            BucketfileError::EmptyWorkdir { line } => BucketfileErrorV::EmptyWorkdir(*line as nat),
            BucketfileError::EmptyEntrypoint { line } => BucketfileErrorV::EmptyEntrypoint(
                *line as nat,
            ),
            BucketfileError::UnknownDirective { line, directive } =>
                BucketfileErrorV::UnknownDirective(*line as nat, directive@),
        }
    }
}

impl BucketfileError {
    /// The message shown for this error.
    pub fn message(&self) -> (r: String)
        ensures
            r@ == match self@ {
                BucketfileErrorV::InvalidEnv(n, t) => "Invalid ENV directive on line "@ + dec(n) + ": "@
                    + t,
                BucketfileErrorV::InvalidCopy(n, t) => "Invalid COPY directive on line "@ + dec(n)
                    + ": "@ + t + ". Expected: COPY <src> <dest>"@,
                BucketfileErrorV::EmptyRun(n) => "Empty RUN directive on line "@ + dec(n),
                BucketfileErrorV::EmptyWorkdir(n) => "Empty WORKDIR directive on line "@ + dec(n),
                BucketfileErrorV::EmptyEntrypoint(n) => "Empty ENTRYPOINT/CMD directive on line "@
                    + dec(n),
                BucketfileErrorV::UnknownDirective(n, d) => "Unknown directive on line "@ + dec(n)
                    + ": "@ + d,
            },
    {
        let mut out: Vec<char> = Vec::new();
        match self {
            BucketfileError::InvalidEnv { line, text } => {
                push_str(&mut out, "Invalid ENV directive on line ");
                push_dec(&mut out, *line as u64);
                push_str(&mut out, ": ");
                push_str(&mut out, text.as_str());
            },
            BucketfileError::InvalidCopy { line, text } => {
                push_str(&mut out, "Invalid COPY directive on line ");
                push_dec(&mut out, *line as u64);
                push_str(&mut out, ": ");
                push_str(&mut out, text.as_str());
                push_str(&mut out, ". Expected: COPY <src> <dest>");
            },
            BucketfileError::EmptyRun { line } => {
                push_str(&mut out, "Empty RUN directive on line ");
                push_dec(&mut out, *line as u64);
            },
            BucketfileError::EmptyWorkdir { line } => {
                push_str(&mut out, "Empty WORKDIR directive on line ");
                push_dec(&mut out, *line as u64);
            },
            BucketfileError::EmptyEntrypoint { line } => {
                push_str(&mut out, "Empty ENTRYPOINT/CMD directive on line ");
                push_dec(&mut out, *line as u64);
            },
            BucketfileError::UnknownDirective { line, directive } => {
                push_str(&mut out, "Unknown directive on line ");
                push_dec(&mut out, *line as u64);
                push_str(&mut out, ": ");
                push_str(&mut out, directive.as_str());
            },
        }
        string_of(&out)
    }
}

// ── Directive keywords ───────────────────────────────────────────────

/// `c.to_uppercase()` is the single ASCII capital `k`: `k` itself, its
/// lowercase, or one of the two non-ASCII letters whose capital is ASCII
/// (dotless `ı` → `I`, long `ſ` → `S`).
pub open spec fn upper_is(c: char, k: char) -> bool {
    ||| c == k
    ||| (c as u32) == (k as u32) + 32
    ||| (k == 'I' && c == '\u{131}')
    ||| (k == 'S' && c == '\u{17F}')
}

/// `cmd.to_uppercase() == kw`, for a keyword `kw` of ASCII capitals. No
/// character uppercases to more than one character that could occur in a
/// directive keyword, so the match is character by character.
pub open spec fn upper_eq(cmd: Seq<char>, kw: Seq<char>) -> bool {
    &&& cmd.len() == kw.len()
    &&& forall|i: int| 0 <= i < cmd.len() ==> upper_is(#[trigger] cmd[i], kw[i])
}

pub enum Keyword {
    From,
    Env,
    Copy,
    Run,
    Workdir,
    Entrypoint,
    Unknown,
}

pub open spec fn kw_from() -> Seq<char> {
    seq!['F', 'R', 'O', 'M']
}

pub open spec fn kw_env() -> Seq<char> {
    seq!['E', 'N', 'V']
}

pub open spec fn kw_copy() -> Seq<char> {
    seq!['C', 'O', 'P', 'Y']
}

pub open spec fn kw_run() -> Seq<char> {
    seq!['R', 'U', 'N']
}

pub open spec fn kw_workdir() -> Seq<char> {
    seq!['W', 'O', 'R', 'K', 'D', 'I', 'R']
}

pub open spec fn kw_entrypoint() -> Seq<char> {
    seq!['E', 'N', 'T', 'R', 'Y', 'P', 'O', 'I', 'N', 'T']
}

pub open spec fn kw_cmd() -> Seq<char> {
    seq!['C', 'M', 'D']
}

pub open spec fn keyword_of(cmd: Seq<char>) -> Keyword {
    if upper_eq(cmd, kw_from()) {
        Keyword::From
    } else if upper_eq(cmd, kw_env()) {
        Keyword::Env
    } else if upper_eq(cmd, kw_copy()) {
        Keyword::Copy
    } else if upper_eq(cmd, kw_run()) {
        Keyword::Run
    } else if upper_eq(cmd, kw_workdir()) {
        Keyword::Workdir
    } else if upper_eq(cmd, kw_entrypoint()) || upper_eq(cmd, kw_cmd()) {
        Keyword::Entrypoint
    } else {
        Keyword::Unknown
    }
}

fn upper_is_exec(c: char, k: char) -> (r: bool)
    requires
        'A' <= k <= 'Z',
    ensures
        r == upper_is(c, k),
{
    c == k || (c as u32) == (k as u32) + 32 || (k == 'I' && c == '\u{131}') || (k == 'S' && c
        == '\u{17F}')
}

fn upper_eq_exec(cmd: &Vec<char>, kw: &Vec<char>) -> (r: bool)
    requires
        forall|i: int| 0 <= i < kw@.len() ==> 'A' <= #[trigger] kw@[i] <= 'Z',
    ensures
        r == upper_eq(cmd@, kw@),
{
    if cmd.len() != kw.len() {
        return false;
    }
    let mut i: usize = 0;
    while i < cmd.len()
        invariant
            cmd.len() == kw.len(),
            i <= cmd.len(),
            forall|j: int| 0 <= j < kw@.len() ==> 'A' <= #[trigger] kw@[j] <= 'Z',
            forall|j: int| 0 <= j < i ==> upper_is(#[trigger] cmd@[j], kw@[j]),
        decreases cmd.len() - i,
    {
        if !upper_is_exec(cmd[i], kw[i]) {
            return false;
        }
        i += 1;
    }
    true
}

fn classify(cmd: &Vec<char>) -> (r: Keyword)
    ensures
        r == keyword_of(cmd@),
{
    let from = vec!['F', 'R', 'O', 'M'];
    let env = vec!['E', 'N', 'V'];
    let copy = vec!['C', 'O', 'P', 'Y'];
    let run = vec!['R', 'U', 'N'];
    let workdir = vec!['W', 'O', 'R', 'K', 'D', 'I', 'R'];
    let entrypoint = vec!['E', 'N', 'T', 'R', 'Y', 'P', 'O', 'I', 'N', 'T'];
    let cmd_kw = vec!['C', 'M', 'D'];
    proof {
        assert(from@ =~= kw_from());
        assert(env@ =~= kw_env());
        assert(copy@ =~= kw_copy());
        assert(run@ =~= kw_run());
        assert(workdir@ =~= kw_workdir());
        assert(entrypoint@ =~= kw_entrypoint());
        assert(cmd_kw@ =~= kw_cmd());
    }
    if upper_eq_exec(cmd, &from) {
        Keyword::From
    } else if upper_eq_exec(cmd, &env) {
        Keyword::Env
    } else if upper_eq_exec(cmd, &copy) {
        Keyword::Copy
    } else if upper_eq_exec(cmd, &run) {
        Keyword::Run
    } else if upper_eq_exec(cmd, &workdir) {
        Keyword::Workdir
    } else if upper_eq_exec(cmd, &entrypoint) || upper_eq_exec(cmd, &cmd_kw) {
        Keyword::Entrypoint
    } else {
        Keyword::Unknown
    }
}

// ── The meaning of one line ──────────────────────────────────────────

pub open spec fn comma_pred() -> spec_fn(char) -> bool {
    |c: char| c == ','
}

/// The package specs of a `FROM` line: its words with surrounding commas
/// removed, empty ones dropped.
pub open spec fn from_specs(ws: Seq<Seq<char>>) -> Seq<Seq<char>>
    decreases ws.len(),
{
    if ws.len() == 0 {
        seq![]
    } else {
        let x = trim_by(ws.last(), comma_pred());
        let rest = from_specs(ws.drop_last());
        if x.len() > 0 {
            rest.push(x)
        } else {
            rest
        }
    }
}

/// What a line contributes: nothing (blank or `#` comment), a directive,
/// or an error.
pub enum LineOutcome {
    Skip,
    Directive(DirectiveV),
    Failure(BucketfileErrorV),
}

/// The command word and the (trimmed) arguments of a trimmed line.
pub open spec fn cmd_and_args(t: Seq<char>) -> (Seq<char>, Seq<char>) {
    match split_once_by(t, ws_pred()) {
        Some((c, a)) => (c, trim(a)),
        None => (t, trim(seq![])),
    }
}

pub open spec fn env_pair(args: Seq<char>) -> Option<(Seq<char>, Seq<char>)> {
    match split_once_by(args, |c: char| c == '=') {
        Some((k, v)) => Some((trim(k), trim(v))),
        None => match split_once_by(args, ws_pred()) {
            Some((k, v)) => Some((trim(k), trim(v))),
            None => None,
        },
    }
}

pub open spec fn line_outcome(raw: Seq<char>, num: nat) -> LineOutcome {
    let t = trim(raw);
    if t.len() == 0 || t[0] == '#' {
        LineOutcome::Skip
    } else {
        let (cmd, args) = cmd_and_args(t);
        match keyword_of(cmd) {
            Keyword::From => LineOutcome::Directive(DirectiveV::From(from_specs(words(args)))),
            Keyword::Env => match env_pair(args) {
                Some((k, v)) => LineOutcome::Directive(DirectiveV::Env(k, v)),
                None => LineOutcome::Failure(BucketfileErrorV::InvalidEnv(num, raw)),
            },
            Keyword::Copy => if words(args).len() == 2 {
                LineOutcome::Directive(DirectiveV::Copy(words(args)[0], words(args)[1]))
            } else {
                LineOutcome::Failure(BucketfileErrorV::InvalidCopy(num, raw))
            },
            Keyword::Run => if args.len() == 0 {
                LineOutcome::Failure(BucketfileErrorV::EmptyRun(num))
            } else {
                LineOutcome::Directive(DirectiveV::Run(args))
            },
            Keyword::Workdir => if args.len() == 0 {
                LineOutcome::Failure(BucketfileErrorV::EmptyWorkdir(num))
            } else {
                LineOutcome::Directive(DirectiveV::Workdir(args))
            },
            Keyword::Entrypoint => if args.len() == 0 {
                LineOutcome::Failure(BucketfileErrorV::EmptyEntrypoint(num))
            } else {
                LineOutcome::Directive(DirectiveV::Entrypoint(args))
            },
            Keyword::Unknown => LineOutcome::Failure(
                BucketfileErrorV::UnknownDirective(num, cmd),
            ),
        }
    }
}

/// The directives of a Bucketfile given as its lines, or the error of the
/// first line that has one.
pub open spec fn parse_lines(ls: Seq<Seq<char>>) -> Result<Seq<DirectiveV>, BucketfileErrorV>
    decreases ls.len(),
{
    if ls.len() == 0 {
        Ok(seq![])
    } else {
        match parse_lines(ls.drop_last()) {
            Err(e) => Err(e),
            Ok(ds) => match line_outcome(ls.last(), ls.len()) {
                LineOutcome::Skip => Ok(ds),
                LineOutcome::Directive(d) => Ok(ds.push(d)),
                LineOutcome::Failure(e) => Err(e),
            },
        }
    }
}

/// What `parse_bucketfile` gives for a Bucketfile's text.
pub open spec fn parse_bucketfile_spec(content: Seq<char>) -> Result<
    Seq<DirectiveV>,
    BucketfileErrorV,
> {
    parse_lines(lines(content))
}

/// Once a line of a Bucketfile is malformed, the lines after it change
/// nothing: the parse keeps that first error.
pub proof fn lemma_parse_lines_err_sticks(ls: Seq<Seq<char>>, i: int, j: int)
    requires
        0 <= i <= j <= ls.len(),
        parse_lines(ls.take(i)) is Err,
    ensures
        parse_lines(ls.take(j)) == parse_lines(ls.take(i)),
    decreases j - i,
{
    if j > i {
        lemma_parse_lines_err_sticks(ls, i, j - 1);
        assert(ls.take(j).drop_last() =~= ls.take(j - 1));
    }
}

/// Whether `s` holds no whitespace character.
pub open spec fn no_ws(s: Seq<char>) -> bool {
    forall|i: int| 0 <= i < s.len() ==> !is_ws(#[trigger] s[i])
}

/// A text that starts and ends with a character other than whitespace is
/// its own trim.
proof fn lemma_trim_fixed(s: Seq<char>)
    requires
        s.len() > 0,
        !is_ws(s[0]),
        !is_ws(s.last()),
    ensures
        trim(s) == s,
{
    assert(trim_start_by(s, ws_pred()) == s);
    assert(trim_end_by(s, ws_pred()) == s);
}

/// The words of `a b`, two whitespace-free words joined by one space.
proof fn lemma_two_words(a: Seq<char>, b: Seq<char>)
    requires
        a.len() > 0,
        b.len() > 0,
        no_ws(a),
        no_ws(b),
    ensures
        words(a + seq![' '] + b) == seq![a, b],
{
    let rest = a + seq![' '] + b;
    assert(rest[0] == a[0]);
    assert(trim_start(rest) == rest);
    assert forall|j: int| 0 <= j < a.len() implies !(#[trigger] ws_pred()(rest[j])) by {
        assert(rest[j] == a[j]);
    }
    assert(rest[a.len() as int] == ' ');
    lemma_first_idx_char(rest, ws_pred(), a.len() as int);
    assert(rest.take(a.len() as int) =~= a);
    let r2 = rest.skip(a.len() as int);
    assert(r2 =~= seq![' '] + b);
    assert(r2.drop_first() =~= b);
    assert(trim_start_by(b, ws_pred()) == b);
    assert(trim_start(r2) == b);
    assert forall|j: int| 0 <= j < b.len() implies !(#[trigger] ws_pred()(b[j])) by {}
    lemma_first_idx_char(b, ws_pred(), b.len() as int);
    assert(b.take(b.len() as int) =~= b);
    assert(b.skip(b.len() as int) =~= Seq::<char>::empty());
    assert(words(Seq::<char>::empty()) == Seq::<Seq<char>>::empty());
    assert(words(r2) =~= seq![b]);
    assert(words(rest) =~= seq![a] + words(r2));
}

/// A line made of a whitespace-free command word, one space, and arguments
/// that start and end with non-whitespace splits into that word and those
/// arguments.
proof fn lemma_cmd_and_args(kw: Seq<char>, rest: Seq<char>)
    requires
        kw.len() > 0,
        no_ws(kw),
        rest.len() > 0,
        !is_ws(rest[0]),
        !is_ws(rest.last()),
    ensures
        trim(kw + seq![' '] + rest) == kw + seq![' '] + rest,
        cmd_and_args(kw + seq![' '] + rest) == (kw, rest),
{
    let raw = kw + seq![' '] + rest;
    assert(raw[0] == kw[0]);
    assert(raw.last() == rest.last());
    lemma_trim_fixed(raw);
    lemma_trim_fixed(rest);
    assert forall|j: int| 0 <= j < kw.len() implies !(#[trigger] ws_pred()(raw[j])) by {
        assert(raw[j] == kw[j]);
    }
    assert(raw[kw.len() as int] == ' ');
    lemma_first_idx_char(raw, ws_pred(), kw.len() as int);
    assert(raw.take(kw.len() as int) =~= kw);
    assert(raw.skip(kw.len() + 1int) =~= rest);
}

/// `RUN`, `WORKDIR`, `CMD` and `ENTRYPOINT` lines carry their whole
/// argument text: `RUN <cmd>` runs `<cmd>`, `WORKDIR <dir>` works in
/// `<dir>`, `CMD <c>` and `ENTRYPOINT <c>` set the entrypoint `<c>`.
pub proof fn lemma_text_directives(rest: Seq<char>, num: nat)
    requires
        rest.len() > 0,
        !is_ws(rest[0]),
        !is_ws(rest.last()),
    ensures
        line_outcome(seq!['R', 'U', 'N', ' '] + rest, num) == LineOutcome::Directive(DirectiveV::Run(rest)),
        line_outcome(seq!['W', 'O', 'R', 'K', 'D', 'I', 'R', ' '] + rest, num) == LineOutcome::Directive(
            DirectiveV::Workdir(rest),
        ),
        line_outcome(seq!['C', 'M', 'D', ' '] + rest, num) == LineOutcome::Directive(
            DirectiveV::Entrypoint(rest),
        ),
        line_outcome(seq!['E', 'N', 'T', 'R', 'Y', 'P', 'O', 'I', 'N', 'T', ' '] + rest, num)
            == LineOutcome::Directive(DirectiveV::Entrypoint(rest)),
{
    let run = kw_run();
    lemma_cmd_and_args(run, rest);
    assert(run + seq![' '] + rest =~= seq!['R', 'U', 'N', ' '] + rest);
    assert(!upper_eq(run, kw_env())) by {
        assert(!upper_is(run[0], kw_env()[0]));
    }
    assert(upper_eq(run, kw_run()));
    assert(keyword_of(run) == Keyword::Run);
    let wd = kw_workdir();
    lemma_cmd_and_args(wd, rest);
    assert(wd + seq![' '] + rest =~= seq!['W', 'O', 'R', 'K', 'D', 'I', 'R', ' '] + rest);
    assert(upper_eq(wd, kw_workdir()));
    assert(keyword_of(wd) == Keyword::Workdir);
    let cmd = kw_cmd();
    lemma_cmd_and_args(cmd, rest);
    assert(cmd + seq![' '] + rest =~= seq!['C', 'M', 'D', ' '] + rest);
    assert(!upper_eq(cmd, kw_env())) by {
        assert(!upper_is(cmd[0], kw_env()[0]));
    }
    assert(!upper_eq(cmd, kw_run())) by {
        assert(!upper_is(cmd[0], kw_run()[0]));
    }
    assert(upper_eq(cmd, kw_cmd()));
    assert(keyword_of(cmd) == Keyword::Entrypoint);
    let ep = kw_entrypoint();
    lemma_cmd_and_args(ep, rest);
    assert(ep + seq![' '] + rest =~= seq!['E', 'N', 'T', 'R', 'Y', 'P', 'O', 'I', 'N', 'T', ' ']
        + rest);
    assert(upper_eq(ep, kw_entrypoint()));
    assert(keyword_of(ep) == Keyword::Entrypoint);
}

/// `ENV <key>=<value>` sets `key` to `value` (neither holding whitespace,
/// the key no `=`; the value may hold more `=`).
pub proof fn lemma_env_line(key: Seq<char>, value: Seq<char>, num: nat)
    requires
        key.len() > 0,
        value.len() > 0,
        no_ws(key),
        no_ws(value),
        !key.contains('='),
    ensures
        line_outcome(seq!['E', 'N', 'V', ' '] + key + seq!['='] + value, num) == LineOutcome::Directive(
            DirectiveV::Env(key, value),
        ),
{
    let args = key + seq!['='] + value;
    assert(args[0] == key[0]);
    assert(args.last() == value.last());
    let env = kw_env();
    lemma_cmd_and_args(env, args);
    assert(env + seq![' '] + args =~= seq!['E', 'N', 'V', ' '] + key + seq!['='] + value);
    assert(upper_eq(env, kw_env()));
    assert(keyword_of(env) == Keyword::Env);
    let eq = |c: char| c == '=';
    assert forall|j: int| 0 <= j < key.len() implies !(#[trigger] eq(args[j])) by {
        assert(args[j] == key[j]);
        if key[j] == '=' {
            assert(key.contains('='));
        }
    }
    assert(args[key.len() as int] == '=');
    lemma_first_idx_char(args, eq, key.len() as int);
    assert(args.take(key.len() as int) =~= key);
    assert(args.skip(key.len() + 1int) =~= value);
    lemma_trim_fixed(key);
    lemma_trim_fixed(value);
    assert(env_pair(args) == Some((key, value)));
}

/// The line `COPY <src> <dest>` (one space between the words, neither
/// word holding whitespace) copies `src` to `dest`, in that order; so does
/// a Bucketfile that is that one line, with or without a final newline.
pub proof fn lemma_copy_line(src: Seq<char>, dest: Seq<char>, num: nat)
    requires
        src.len() > 0,
        dest.len() > 0,
        no_ws(src),
        no_ws(dest),
    ensures
        line_outcome(seq!['C', 'O', 'P', 'Y', ' '] + src + seq![' '] + dest, num)
            == LineOutcome::Directive(DirectiveV::Copy(src, dest)),
        parse_bucketfile_spec(seq!['C', 'O', 'P', 'Y', ' '] + src + seq![' '] + dest) == Ok::<
            Seq<DirectiveV>,
            BucketfileErrorV,
        >(seq![DirectiveV::Copy(src, dest)]),
        parse_bucketfile_spec(seq!['C', 'O', 'P', 'Y', ' '] + src + seq![' '] + dest + seq!['\n'])
            == Ok::<Seq<DirectiveV>, BucketfileErrorV>(seq![DirectiveV::Copy(src, dest)]),
{
    let rest = src + seq![' '] + dest;
    let raw = seq!['C', 'O', 'P', 'Y', ' '] + rest;
    assert(raw =~= seq!['C', 'O', 'P', 'Y', ' '] + src + seq![' '] + dest);
    assert(raw.last() == dest.last());
    assert(rest.last() == dest.last());
    assert(rest[0] == src[0]);
    lemma_trim_fixed(raw);
    lemma_trim_fixed(rest);
    lemma_first_idx_char(raw, ws_pred(), 4);
    let cmd = raw.take(4);
    assert(cmd =~= kw_copy());
    assert(raw.skip(5) =~= rest);
    assert(cmd_and_args(raw) == (cmd, rest));
    assert(!upper_eq(cmd, kw_from())) by {
        assert(!upper_is(cmd[0], kw_from()[0]));
    }
    assert(!upper_eq(cmd, kw_env()));
    assert(upper_eq(cmd, kw_copy()));
    assert(keyword_of(cmd) == Keyword::Copy);
    lemma_two_words(src, dest);
    assert(line_outcome(raw, num) == LineOutcome::Directive(DirectiveV::Copy(src, dest)));
    // As a whole file: one line, with or without its newline.
    assert forall|j: int| 0 <= j < raw.len() implies !(#[trigger] nl_pred()(raw[j])) by {
        if 5 <= j < 5 + src.len() {
            assert(raw[j] == src[j - 5]);
        } else if j >= 6 + src.len() {
            assert(raw[j] == dest[j - 6 - src.len()]);
        }
    }
    lemma_first_idx_char(raw, nl_pred(), raw.len() as int);
    assert(lines(raw) == seq![raw]);
    let ls = seq![raw];
    assert(line_outcome(raw, 1) == LineOutcome::Directive(DirectiveV::Copy(src, dest)));
    assert(ls.drop_last() =~= Seq::<Seq<char>>::empty());
    assert(parse_lines(ls.drop_last()) == Ok::<Seq<DirectiveV>, BucketfileErrorV>(seq![]));
    assert(ls.last() == raw && ls.len() == 1);
    assert(parse_lines(ls) == Ok::<Seq<DirectiveV>, BucketfileErrorV>(
        Seq::<DirectiveV>::empty().push(DirectiveV::Copy(src, dest)),
    ));
    assert(Seq::<DirectiveV>::empty().push(DirectiveV::Copy(src, dest)) =~= seq![
        DirectiveV::Copy(src, dest),
    ]);
    let withnl = raw + seq!['\n'];
    assert forall|j: int| 0 <= j < raw.len() implies !(#[trigger] nl_pred()(withnl[j])) by {
        assert(withnl[j] == raw[j]);
        assert(!nl_pred()(raw[j]));
    }
    lemma_first_idx_char(withnl, nl_pred(), raw.len() as int);
    assert(withnl.take(raw.len() as int) =~= raw);
    assert(withnl.skip(raw.len() + 1int) =~= Seq::<char>::empty());
    assert(strip_cr(raw) == raw);
    assert(lines(Seq::<char>::empty()) == Seq::<Seq<char>>::empty());
    assert(lines(withnl) =~= seq![raw]);
    assert(withnl =~= seq!['C', 'O', 'P', 'Y', ' '] + src + seq![' '] + dest + seq!['\n']);
}

fn strings_of(v: &Vec<Vec<char>>) -> (r: Vec<String>)
    ensures
        strings_view(r@) == Seq::new(v@.len(), |i: int| v@[i]@),
{
    let mut out: Vec<String> = Vec::new();
    let mut i: usize = 0;
    while i < v.len()
        invariant
            i <= v.len(),
            out@.len() == i,
            forall|j: int| 0 <= j < i ==> #[trigger] out@[j]@ == v@[j]@,
        decreases v.len() - i,
    {
        out.push(string_of(&v[i]));
        i += 1;
    }
    proof {
        assert(strings_view(out@) =~= Seq::new(v@.len(), |i: int| v@[i]@));
    }
    out
}

fn from_specs_exec(ws: &Vec<Vec<char>>) -> (r: Vec<String>)
    ensures
        strings_view(r@) == from_specs(Seq::new(ws@.len(), |i: int| ws@[i]@)),
{
    let ghost full = Seq::new(ws@.len(), |i: int| ws@[i]@);
    let mut out: Vec<String> = Vec::new();
    let comma = CharClass::Exactly(',');
    let mut i: usize = 0;
    proof {
        assert(full.take(0) =~= seq![]);
        assert(strings_view(out@) =~= seq![]);
        assert(class_pred(comma) == comma_pred());
    }
    while i < ws.len()
        invariant
            i <= ws.len(),
            full == Seq::new(ws@.len(), |i: int| ws@[i]@),
            class_pred(comma) == comma_pred(),
            strings_view(out@) == from_specs(full.take(i as int)),
        decreases ws.len() - i,
    {
        let x = trim_class(&ws[i], &comma);
        proof {
            assert(full.take(i + 1).drop_last() =~= full.take(i as int));
            assert(full.take(i + 1).last() == ws@[i as int]@);
        }
        if x.len() > 0 {
            let s = string_of(&x);
            out.push(s);
            proof {
                assert(strings_view(out@) =~= from_specs(full.take(i as int)).push(x@));
            }
        }
        i += 1;
    }
    proof {
        assert(full.take(ws.len() as int) =~= full);
    }
    out
}

fn line_outcome_exec(raw: &Vec<char>, num: usize) -> (r: Result<
    Option<BucketfileDirective>,
    BucketfileError,
>)
    ensures
        match r {
            Ok(None) => line_outcome(raw@, num as nat) is Skip,
            Ok(Some(d)) => line_outcome(raw@, num as nat) == LineOutcome::Directive(d@),
            Err(e) => line_outcome(raw@, num as nat) == LineOutcome::Failure(e@),
        },
{
    let t = trim_ws(raw);
    if t.len() == 0 || t[0] == '#' {
        return Ok(None);
    }
    let ws = CharClass::Whitespace;
    proof {
        assert(class_pred(ws) == ws_pred());
    }
    let (cmd, args) = match split_once_class(&t, &ws) {
        Some((c, a)) => (c, trim_ws(&a)),
        None => {
            let empty: Vec<char> = Vec::new();
            let a = trim_ws(&empty);
            proof {
                assert(empty@ =~= seq![]);
            }
            (t, a)
        },
    };
    proof {
        assert(cmd_and_args(trim(raw@)) == (cmd@, args@));
    }
    match classify(&cmd) {
        Keyword::From => {
            let w = split_words(&args);
            let specs = from_specs_exec(&w);
            proof {
                assert(Seq::new(w@.len(), |i: int| w@[i]@) =~= words(args@));
            }
            Ok(Some(BucketfileDirective::From(specs)))
        },
        Keyword::Env => {
            let eq = CharClass::Exactly('=');
            proof {
                assert(class_pred(eq) =~= (|c: char| c == '='));
            }
            match split_once_class(&args, &eq) {
                Some((k, v)) => {
                    let k2 = trim_ws(&k);
                    let v2 = trim_ws(&v);
                    Ok(Some(BucketfileDirective::Env(string_of(&k2), string_of(&v2))))
                },
                None => match split_once_class(&args, &ws) {
                    Some((k, v)) => {
                        let k2 = trim_ws(&k);
                        let v2 = trim_ws(&v);
                        Ok(Some(BucketfileDirective::Env(string_of(&k2), string_of(&v2))))
                    },
                    None => Err(BucketfileError::InvalidEnv { line: num, text: string_of(raw) }),
                },
            }
        },
        Keyword::Copy => {
            let w = split_words(&args);
            if w.len() != 2 {
                Err(BucketfileError::InvalidCopy { line: num, text: string_of(raw) })
            } else {
                Ok(Some(BucketfileDirective::Copy(string_of(&w[0]), string_of(&w[1]))))
            }
        },
        Keyword::Run => {
            if args.len() == 0 {
                Err(BucketfileError::EmptyRun { line: num })
            } else {
                Ok(Some(BucketfileDirective::Run(string_of(&args))))
            }
        },
        Keyword::Workdir => {
            if args.len() == 0 {
                Err(BucketfileError::EmptyWorkdir { line: num })
            } else {
                Ok(Some(BucketfileDirective::Workdir(string_of(&args))))
            }
        },
        Keyword::Entrypoint => {
            if args.len() == 0 {
                Err(BucketfileError::EmptyEntrypoint { line: num })
            } else {
                Ok(Some(BucketfileDirective::Entrypoint(string_of(&args))))
            }
        },
        Keyword::Unknown => Err(
            BucketfileError::UnknownDirective { line: num, directive: string_of(&cmd) },
        ),
    }
}

/// Parse a Bucketfile: one directive per non-blank line that does not
/// start with `#`; the first malformed line ends the parse with its error.
pub fn parse_bucketfile(content: &str) -> (r: Result<Vec<BucketfileDirective>, BucketfileError>)
    ensures
        match r {
            Ok(ds) => parse_bucketfile_spec(content@) == Ok::<Seq<DirectiveV>, BucketfileErrorV>(
                ds@.map_values(|d: BucketfileDirective| d@),
            ),
            Err(e) => parse_bucketfile_spec(content@) == Err::<Seq<DirectiveV>, BucketfileErrorV>(
                e@,
            ),
        },
{
    let text = chars_of(content);
    let ls = split_lines(&text);
    let ghost lsv = lines(content@);
    let mut out: Vec<BucketfileDirective> = Vec::new();
    let mut i: usize = 0;
    proof {
        assert(lsv.take(0) =~= seq![]);
        assert(out@.map_values(|d: BucketfileDirective| d@) =~= seq![]);
    }
    while i < ls.len()
        invariant
            i <= ls.len(),
            lsv == lines(content@),
            ls@.len() == lsv.len(),
            forall|j: int| 0 <= j < ls@.len() ==> #[trigger] ls@[j]@ == lsv[j],
            parse_lines(lsv.take(i as int)) == Ok::<Seq<DirectiveV>, BucketfileErrorV>(
                out@.map_values(|d: BucketfileDirective| d@),
            ),
        decreases ls.len() - i,
    {
        let res = line_outcome_exec(&ls[i], i + 1);
        proof {
            assert(lsv.take(i + 1).drop_last() =~= lsv.take(i as int));
            assert(lsv.take(i + 1).last() == ls@[i as int]@);
            assert(lsv.take(i + 1).len() == i + 1);
        }
        match res {
            Ok(None) => {},
            Ok(Some(d)) => {
                let ghost prev = out@;
                out.push(d);
                proof {
                    assert(out@.map_values(|d: BucketfileDirective| d@) =~= prev.map_values(
                        |d: BucketfileDirective| d@,
                    ).push(d@));
                }
            },
            Err(e) => {
                proof {
                    lemma_parse_lines_err_sticks(lsv, i + 1, lsv.len() as int);
                    assert(lsv.take(lsv.len() as int) =~= lsv);
                }
                return Err(e);
            },
        }
        i += 1;
    }
    proof {
        assert(lsv.take(lsv.len() as int) =~= lsv);
    }
    Ok(out)
}


// ── Building a Bucketfile ────────────────────────────────────────────

/// What a built local bucket records about itself (`metadata.json`).
#[derive(Debug, Clone)]
pub struct BucketMetadata {
    pub entrypoint: String,
    pub dependencies: Vec<String>,
    pub env: KeyedMap<String>,
    pub workdir: Option<String>,
}

/// One effect of building a Bucketfile, in the order the directives ask
/// for them.
#[derive(Debug, Clone)]
pub enum BuildStep {
    /// Copy the host file or directory `source` to `dest`.
    Copy { source: String, dest: String },
    /// Create the directory `dir` (and its parents): the new working directory.
    MakeDir { dir: String },
    /// Run `/bin/sh -c command` in `workdir` with `env`, in a sandbox.
    Run { command: String, workdir: String, env: KeyedMap<String> },
}

pub enum BuildStepV {
    Copy(Seq<char>, Seq<char>),
    MakeDir(Seq<char>),
    Run(Seq<char>, Seq<char>, Seq<(Seq<char>, Seq<char>)>),
}

impl View for BuildStep {
    type V = BuildStepV;

    open spec fn view(&self) -> BuildStepV {
        match self {
            BuildStep::Copy { source, dest } => BuildStepV::Copy(source@, dest@),
            BuildStep::MakeDir { dir } => BuildStepV::MakeDir(dir@),
            BuildStep::Run { command, workdir, env } => BuildStepV::Run(command@, workdir@, env@),
        }
    }
}

/// A Bucketfile that names no entrypoint cannot be built.
#[derive(Debug, Clone)]
pub enum BuildError {
    NoEntrypoint,
}

impl BuildError {
    /// The message shown for this error.
    pub fn message(&self) -> (r: String)
        ensures
            r@ == "Bucketfile has no ENTRYPOINT or CMD defined"@,
    {
        String::from_str("Bucketfile has no ENTRYPOINT or CMD defined")
    }
}

/// Where `build` looks for a Bucketfile in `source_dir` when none is named.
pub fn default_bucketfile_path(source_dir: &str) -> (r: String)
    ensures
        r@ == join(source_dir@, "Bucketfile"@),
{
    crate::paths::join_path(source_dir, "Bucketfile")
}

pub open spec fn missing_tag_message() -> Seq<char> {
    "Please specify a name/tag for the built bucket using --tag or -t (e.g. -t my-bucket)"@
}

/// Whether `build` builds a Bucketfile, and which under what name: the one
/// named with `-f`, else the source's default one when it exists
/// (`default_exists`); a Bucketfile build needs a tag. `Ok(None)` means
/// the source is built as a project instead.
pub fn bucketfile_to_build(
    explicit: Option<&str>,
    default_path: &str,
    default_exists: bool,
    tag: Option<&str>,
) -> (r: Result<Option<(String, String)>, String>)
    ensures
        explicit is None && !default_exists ==> r matches Ok(None),
        (explicit is Some || default_exists) && tag is None ==> (r matches Err(m) && m@
            == missing_tag_message()),
        (explicit is Some || default_exists) && tag is Some ==> (r matches Ok(Some((path, name)))
            && name@ == tag->0@ && path@ == match explicit {
            Some(e) => e@,
            None => default_path@,
        }),
{
    let path = match explicit {
        Some(e) => String::from_str(e),
        None => {
            if !default_exists {
                return Ok(None);
            }
            String::from_str(default_path)
        },
    };
    match tag {
        Some(t) => Ok(Some((path, String::from_str(t)))),
        None => Err(String::from_str(
            "Please specify a name/tag for the built bucket using --tag or -t (e.g. -t my-bucket)",
        )),
    }
}

/// Everything building a Bucketfile named `name` does, as data: the steps
/// to carry out, where the result goes, and what it records. `finish` is
/// an error when there is no entrypoint; the steps run before that is
/// reported.
#[derive(Debug)]
pub struct BuildPlan {
    pub project_name: String,
    pub target_dir: String,
    pub bin_dir: String,
    pub launcher_path: String,
    pub launcher_script: String,
    pub metadata_path: String,
    pub target_workspace: String,
    pub steps: Vec<BuildStep>,
    pub finish: Result<BucketMetadata, BuildError>,
}

pub open spec fn slash_pred() -> spec_fn(char) -> bool {
    |c: char| c == '/'
}

/// `s.trim_start_matches('/')`.
pub open spec fn strip_slashes(s: Seq<char>) -> Seq<char> {
    trim_start_by(s, slash_pred())
}

/// The package specs of all `FROM` lines, in order.
pub open spec fn deps_of(ds: Seq<DirectiveV>) -> Seq<Seq<char>>
    decreases ds.len(),
{
    if ds.len() == 0 {
        seq![]
    } else {
        match ds.last() {
            DirectiveV::From(specs) => deps_of(ds.drop_last()) + specs,
            _ => deps_of(ds.drop_last()),
        }
    }
}

/// The environment after the `ENV` lines of `ds`, starting from `env0`.
pub open spec fn env_after(env0: Seq<(Seq<char>, Seq<char>)>, ds: Seq<DirectiveV>) -> Seq<
    (Seq<char>, Seq<char>),
>
    decreases ds.len(),
{
    if ds.len() == 0 {
        env0
    } else {
        match ds.last() {
            DirectiveV::Env(k, v) => assoc_insert(env_after(env0, ds.drop_last()), k, v),
            _ => env_after(env0, ds.drop_last()),
        }
    }
}

/// The working directory the last `WORKDIR` of `ds` set, relative to the
/// workspace (leading slashes removed), if any.
pub open spec fn last_workdir(ds: Seq<DirectiveV>) -> Option<Seq<char>>
    decreases ds.len(),
{
    if ds.len() == 0 {
        None
    } else {
        match ds.last() {
            DirectiveV::Workdir(w) => Some(strip_slashes(w)),
            _ => last_workdir(ds.drop_last()),
        }
    }
}

/// The command of the last `ENTRYPOINT`/`CMD` of `ds`, or empty.
pub open spec fn last_entrypoint(ds: Seq<DirectiveV>) -> Seq<char>
    decreases ds.len(),
{
    if ds.len() == 0 {
        seq![]
    } else {
        match ds.last() {
            DirectiveV::Entrypoint(c) => c,
            _ => last_entrypoint(ds.drop_last()),
        }
    }
}

pub open spec fn current_dir(ws: Seq<char>, ds: Seq<DirectiveV>) -> Seq<char> {
    match last_workdir(ds) {
        Some(w) => join(ws, w),
        None => ws,
    }
}

/// Where `COPY` puts a file: `/`, `.` and `./` mean the workspace itself;
/// anything else is taken relative to it.
pub open spec fn copy_dest(ws: Seq<char>, dest: Seq<char>) -> Seq<char> {
    if dest == seq!['/'] || dest == seq!['.'] || dest == seq!['.', '/'] {
        ws
    } else {
        join(ws, strip_slashes(dest))
    }
}

/// The steps of building `ds` from the Bucketfile directory `bf_dir` into
/// the workspace `ws`, with the resolved environment `env0`.
pub open spec fn steps_of(
    bf_dir: Seq<char>,
    ws: Seq<char>,
    env0: Seq<(Seq<char>, Seq<char>)>,
    ds: Seq<DirectiveV>,
) -> Seq<BuildStepV>
    decreases ds.len(),
{
    if ds.len() == 0 {
        seq![]
    } else {
        let prev = steps_of(bf_dir, ws, env0, ds.drop_last());
        match ds.last() {
            DirectiveV::Copy(src, dest) => prev.push(
                BuildStepV::Copy(join(bf_dir, src), copy_dest(ws, dest)),
            ),
            DirectiveV::Workdir(w) => prev.push(BuildStepV::MakeDir(join(ws, strip_slashes(w)))),
            DirectiveV::Run(c) => prev.push(
                BuildStepV::Run(c, current_dir(ws, ds.drop_last()), env_after(env0, ds.drop_last())),
            ),
            _ => prev,
        }
    }
}

/// `Components::as_path` of a relative path: leading and trailing empty
/// and `.` components dropped.
pub open spec fn path_trim_left(s: Seq<char>) -> Seq<char>
    decreases s.len(),
{
    if s.len() > 0 && s[0] == '/' {
        path_trim_left(s.drop_first())
    } else if s == seq!['.'] {
        seq![]
    } else if s.len() >= 2 && s[0] == '.' && s[1] == '/' {
        path_trim_left(s.skip(2))
    } else {
        s
    }
}

pub open spec fn path_trim_right(s: Seq<char>) -> Seq<char>
    decreases s.len(),
{
    if s.len() > 0 && s.last() == '/' {
        path_trim_right(s.drop_last())
    } else if s == seq!['.'] {
        seq![]
    } else if s.len() >= 2 && s.last() == '.' && s[s.len() - 2] == '/' {
        path_trim_right(s.drop_last())
    } else {
        s
    }
}

/// The working directory a built bucket records: the last `WORKDIR`
/// relative to the workspace, or none when it is the workspace itself.
pub open spec fn recorded_workdir(ds: Seq<DirectiveV>) -> Option<Seq<char>> {
    match last_workdir(ds) {
        None => None,
        Some(w) => {
            let t = path_trim_right(path_trim_left(w));
            if t.len() == 0 {
                None
            } else {
                Some(t)
            }
        },
    }
}

pub open spec fn local_project(name: Seq<char>) -> Seq<char> {
    "local/"@ + name
}

pub open spec fn launcher_script_spec(project: Seq<char>) -> Seq<char> {
    "#!/bin/sh\nexec buckets run "@ + project + " -- \"$@\"\n"@
}

fn is_workspace_root(d: &Vec<char>) -> (r: bool)
    ensures
        r == (d@ == seq!['/'] || d@ == seq!['.'] || d@ == seq!['.', '/']),
{
    if d.len() == 1 && (d[0] == '/' || d[0] == '.') {
        proof {
            if d@[0] == '/' {
                assert(d@ =~= seq!['/']);
            } else {
                assert(d@ =~= seq!['.']);
            }
        }
        true
    } else if d.len() == 2 && d[0] == '.' && d[1] == '/' {
        proof {
            assert(d@ =~= seq!['.', '/']);
        }
        true
    } else {
        proof {
            if d@ == seq!['/'] || d@ == seq!['.'] {
                assert(d@.len() == 1 && d@[0] == d@[0]);
            }
            if d@ == seq!['.', '/'] {
                assert(d@.len() == 2 && d@[0] == '.' && d@[1] == '/');
            }
        }
        false
    }
}

fn strip_slashes_exec(s: &Vec<char>) -> (r: Vec<char>)
    ensures
        r@ == strip_slashes(s@),
{
    let k = CharClass::Exactly('/');
    let r = crate::config::trim_start_class(s, &k);
    proof {
        assert(class_pred(k) =~= slash_pred());
    }
    r
}

fn path_trim_left_exec(s: &Vec<char>) -> (r: Vec<char>)
    ensures
        r@ == path_trim_left(s@),
{
    let mut i: usize = 0;
    proof {
        assert(s@.skip(0) =~= s@);
    }
    loop
        invariant
            i <= s.len(),
            path_trim_left(s@) == path_trim_left(s@.skip(i as int)),
        decreases s.len() - i,
    {
        let ghost t = s@.skip(i as int);
        if i < s.len() && s[i] == '/' {
            proof {
                assert(t.drop_first() =~= s@.skip(i + 1));
            }
            i += 1;
        } else if i < s.len() && i + 1 == s.len() && s[i] == '.' {
            proof {
                assert(t =~= seq!['.']);
            }
            return Vec::new();
        } else if i < s.len() && s.len() - i >= 2 && s[i] == '.' && s[i + 1] == '/' {
            proof {
                assert(t.skip(2) =~= s@.skip(i + 2));
                assert(t != seq!['.']);
            }
            i += 2;
        } else {
            proof {
                if t == seq!['.'] {
                    assert(t[0] == s@[i as int]);
                }
                assert(s@.subrange(i as int, s.len() as int) =~= t);
            }
            return slice_chars(s, i, s.len());
        }
    }
}

fn path_trim_right_exec(s: &Vec<char>) -> (r: Vec<char>)
    ensures
        r@ == path_trim_right(s@),
{
    let mut j: usize = s.len();
    proof {
        assert(s@.take(s.len() as int) =~= s@);
    }
    loop
        invariant
            j <= s.len(),
            path_trim_right(s@) == path_trim_right(s@.take(j as int)),
        decreases j,
    {
        let ghost t = s@.take(j as int);
        if j > 0 && s[j - 1] == '/' {
            proof {
                assert(t.drop_last() =~= s@.take(j - 1));
            }
            j -= 1;
        } else if j == 1 && s[0] == '.' {
            proof {
                assert(t =~= seq!['.']);
            }
            return Vec::new();
        } else if j >= 2 && s[j - 1] == '.' && s[j - 2] == '/' {
            proof {
                assert(t.drop_last() =~= s@.take(j - 1));
                assert(t != seq!['.']);
            }
            j -= 1;
        } else {
            proof {
                if t == seq!['.'] {
                    assert(t[0] == s@[0]);
                }
                assert(s@.subrange(0, j as int) =~= t);
            }
            return slice_chars(s, 0, j);
        }
    }
}

fn push_string_copies(out: &mut Vec<String>, src: &Vec<String>)
    ensures
        strings_view(final(out)@) == strings_view(old(out)@) + strings_view(src@),
{
    let mut i: usize = 0;
    while i < src.len()
        invariant
            i <= src.len(),
            strings_view(out@) == strings_view(old(out)@) + strings_view(src@).take(i as int),
        decreases src.len() - i,
    {
        let ghost before = out@;
        out.push(src[i].clone());
        proof {
            assert(strings_view(out@) =~= strings_view(before).push(src@[i as int]@));
            assert(strings_view(src@).take(i + 1) =~= strings_view(src@).take(i as int).push(
                src@[i as int]@,
            ));
        }
        i += 1;
    }
    proof {
        assert(strings_view(src@).take(src.len() as int) =~= strings_view(src@));
    }
}

/// The package specs named by the `FROM` lines, in order: what the
/// build's toolchain is resolved from.
pub fn bucket_dependencies(ds: &Vec<BucketfileDirective>) -> (r: Vec<String>)
    ensures
        strings_view(r@) == deps_of(ds@.map_values(|d: BucketfileDirective| d@)),
{
    let ghost dv = ds@.map_values(|d: BucketfileDirective| d@);
    let mut out: Vec<String> = Vec::new();
    let mut i: usize = 0;
    proof {
        assert(dv.take(0) =~= seq![]);
        assert(strings_view(out@) =~= seq![]);
    }
    while i < ds.len()
        invariant
            i <= ds.len(),
            dv == ds@.map_values(|d: BucketfileDirective| d@),
            strings_view(out@) == deps_of(dv.take(i as int)),
        decreases ds.len() - i,
    {
        proof {
            assert(dv.take(i + 1).drop_last() =~= dv.take(i as int));
            assert(dv.take(i + 1).last() == ds@[i as int]@);
        }
        match &ds[i] {
            BucketfileDirective::From(specs) => {
                push_string_copies(&mut out, specs);
            },
            _ => {},
        }
        i += 1;
    }
    proof {
        assert(dv.take(ds.len() as int) =~= dv);
    }
    out
}

/// Turn the directives of a Bucketfile into the build of local bucket
/// `name`: `bucketfile_dir` is the directory relative `COPY` sources are
/// taken from, `workspace` the scratch directory the build runs in, and
/// `resolved_env` the environment of the `FROM` toolchains.
pub fn plan_bucket_build(
    config: &Config,
    ds: &Vec<BucketfileDirective>,
    name: &str,
    bucketfile_dir: &str,
    workspace: &str,
    resolved_env: &KeyedMap<String>,
) -> (r: BuildPlan)
    ensures
        r.project_name@ == local_project(name@),
        r.target_dir@ == join(
            join(config.cache_dir@, crate::config::sanitize_project_name_spec(local_project(name@))),
            "v0.0.0"@,
        ),
        r.bin_dir@ == join(r.target_dir@, "bin"@),
        r.launcher_path@ == join(r.bin_dir@, name@),
        r.launcher_script@ == launcher_script_spec(local_project(name@)),
        r.metadata_path@ == join(r.target_dir@, "metadata.json"@),
        r.target_workspace@ == join(r.target_dir@, "workspace"@),
        r.steps@.map_values(|s: BuildStep| s@) == steps_of(
            bucketfile_dir@,
            workspace@,
            resolved_env@,
            ds@.map_values(|d: BucketfileDirective| d@),
        ),
        match r.finish {
            Ok(meta) => {
                let dv = ds@.map_values(|d: BucketfileDirective| d@);
                &&& last_entrypoint(dv).len() > 0
                &&& meta.entrypoint@ == last_entrypoint(dv)
                &&& strings_view(meta.dependencies@) == deps_of(dv)
                &&& meta.env@ == env_after(resolved_env@, dv)
                &&& match meta.workdir {
                    Some(w) => recorded_workdir(dv) == Some(w@),
                    None => recorded_workdir(dv) is None,
                }
            },
            Err(BuildError::NoEntrypoint) => last_entrypoint(
                ds@.map_values(|d: BucketfileDirective| d@),
            ).len() == 0,
        },
{
    let ghost dv = ds@.map_values(|d: BucketfileDirective| d@);
    let ghost bfd = bucketfile_dir@;
    let ghost wsv = workspace@;
    let ghost env0 = resolved_env@;
    let bf_dir = chars_of(bucketfile_dir);
    let ws = chars_of(workspace);

    // Where the bucket goes.
    let mut pn: Vec<char> = Vec::new();
    push_str(&mut pn, "local/");
    push_str(&mut pn, name);
    let project_name = string_of(&pn);
    let target_dir = config.version_dir(project_name.as_str(), "0.0.0");
    let bin_dir = crate::paths::join_path(target_dir.as_str(), "bin");
    let launcher_path = crate::paths::join_path(bin_dir.as_str(), name);
    let mut ls: Vec<char> = Vec::new();
    push_str(&mut ls, "#!/bin/sh\nexec buckets run ");
    push_chars(&mut ls, &pn);
    push_str(&mut ls, " -- \"$@\"\n");
    let launcher_script = string_of(&ls);
    let metadata_path = crate::paths::join_path(target_dir.as_str(), "metadata.json");
    let target_workspace = crate::paths::join_path(target_dir.as_str(), "workspace");
    proof {
        assert(pn@ =~= local_project(name@));
        assert(seq!['v'] + "0.0.0"@ =~= "v0.0.0"@) by {
            reveal_strlit("0.0.0");
            reveal_strlit("v0.0.0");
        }
        assert(ls@ =~= launcher_script_spec(local_project(name@)));
    }

    // The directives, in order.
    let mut steps: Vec<BuildStep> = Vec::new();
    let mut deps: Vec<String> = Vec::new();
    let mut env = clone_string_map(resolved_env);
    let mut workdir: Option<Vec<char>> = None;
    let mut entry: Vec<char> = Vec::new();
    let mut i: usize = 0;
    proof {
        assert(dv.take(0) =~= seq![]);
        assert(steps@.map_values(|s: BuildStep| s@) =~= seq![]);
        assert(strings_view(deps@) =~= seq![]);
    }
    while i < ds.len()
        invariant
            i <= ds.len(),
            dv == ds@.map_values(|d: BucketfileDirective| d@),
            bf_dir@ == bfd,
            ws@ == wsv,
            bfd == bucketfile_dir@,
            wsv == workspace@,
            env0 == resolved_env@,
            steps@.map_values(|s: BuildStep| s@) == steps_of(bfd, wsv, env0, dv.take(i as int)),
            strings_view(deps@) == deps_of(dv.take(i as int)),
            env@ == env_after(env0, dv.take(i as int)),
            match workdir {
                Some(w) => last_workdir(dv.take(i as int)) == Some(w@),
                None => last_workdir(dv.take(i as int)) is None,
            },
            entry@ == last_entrypoint(dv.take(i as int)),
        decreases ds.len() - i,
    {
        let ghost pre = dv.take(i as int);
        let ghost prev_steps = steps@;
        proof {
            assert(dv.take(i + 1).drop_last() =~= pre);
            assert(dv.take(i + 1).last() == ds@[i as int]@);
        }
        match &ds[i] {
            BucketfileDirective::From(specs) => {
                push_string_copies(&mut deps, specs);
            },
            BucketfileDirective::Env(k, v) => {
                env.insert(k.clone(), v.clone());
            },
            BucketfileDirective::Copy(src, dest) => {
                let s = chars_of(src.as_str());
                let d = chars_of(dest.as_str());
                let source = join_chars(&bf_dir, &s);
                let is_root = is_workspace_root(&d);
                let target = if is_root {
                    slice_chars(&ws, 0, ws.len())
                } else {
                    let cleaned = strip_slashes_exec(&d);
                    join_chars(&ws, &cleaned)
                };
                proof {
                    assert(ws@.subrange(0, ws@.len() as int) =~= ws@);
                }
                steps.push(BuildStep::Copy { source: string_of(&source), dest: string_of(&target) });
                proof {
                    assert(steps@.map_values(|s: BuildStep| s@) =~= prev_steps.map_values(
                        |s: BuildStep| s@,
                    ).push(BuildStepV::Copy(join(bfd, s@), copy_dest(wsv, d@))));
                }
            },
            BucketfileDirective::Workdir(w) => {
                let wc = chars_of(w.as_str());
                let cleaned = strip_slashes_exec(&wc);
                let dir = join_chars(&ws, &cleaned);
                steps.push(BuildStep::MakeDir { dir: string_of(&dir) });
                proof {
                    assert(steps@.map_values(|s: BuildStep| s@) =~= prev_steps.map_values(
                        |s: BuildStep| s@,
                    ).push(BuildStepV::MakeDir(join(wsv, strip_slashes(wc@)))));
                }
                workdir = Some(cleaned);
            },
            BucketfileDirective::Run(c) => {
                let cwd = match &workdir {
                    Some(wd) => join_chars(&ws, wd),
                    None => slice_chars(&ws, 0, ws.len()),
                };
                proof {
                    assert(ws@.subrange(0, ws@.len() as int) =~= ws@);
                }
                let snapshot = clone_string_map(&env);
                steps.push(
                    BuildStep::Run { command: c.clone(), workdir: string_of(&cwd), env: snapshot },
                );
                proof {
                    assert(steps@.map_values(|s: BuildStep| s@) =~= prev_steps.map_values(
                        |s: BuildStep| s@,
                    ).push(BuildStepV::Run(c@, current_dir(wsv, pre), env_after(env0, pre))));
                }
            },
            BucketfileDirective::Entrypoint(c) => {
                entry = chars_of(c.as_str());
            },
        }
        i += 1;
    }
    proof {
        assert(dv.take(ds.len() as int) =~= dv);
    }
    let finish = if entry.len() == 0 {
        Err(BuildError::NoEntrypoint)
    } else {
        let rec_wd = match &workdir {
            None => None,
            Some(w) => {
                let l = path_trim_left_exec(w);
                let t = path_trim_right_exec(&l);
                if t.len() == 0 {
                    None
                } else {
                    Some(string_of(&t))
                }
            },
        };
        Ok(BucketMetadata { entrypoint: string_of(&entry), dependencies: deps, env, workdir: rec_wd })
    };
    BuildPlan {
        project_name,
        target_dir,
        bin_dir,
        launcher_path,
        launcher_script,
        metadata_path,
        target_workspace,
        steps,
        finish,
    }
}

} // verus!
