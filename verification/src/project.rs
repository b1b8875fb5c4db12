//! Build-system detection for `buckets build`: from what a source
//! directory holds, the toolchain it needs and how to build, test and run
//! it. Looking at the directory (and cloning a git URL into one) is the
//! caller's job; [`ProjectFiles`] is what it found there.
use vstd::prelude::*;

use crate::text::{
    chars_of, first_idx, is_ascii_digit, lemma_first_idx, lemma_first_idx_char, lines, push_chars,
    push_str, slice_chars, split_lines, starts_with, ends_with, string_of, trim, trim_ws,
};

verus! {

broadcast use vstd::string::group_string_axioms;

pub open spec fn strings_view(v: Seq<String>) -> Seq<Seq<char>> {
    v.map_values(|s: String| s@)
}

// ── Sources ──────────────────────────────────────────────────────────

pub open spec fn is_prefix(p: Seq<char>, s: Seq<char>) -> bool {
    p.len() <= s.len() && s.take(p.len() as int) == p
}

pub open spec fn is_suffix(p: Seq<char>, s: Seq<char>) -> bool {
    p.len() <= s.len() && s.skip(s.len() - p.len()) == p
}

/// A source that is cloned rather than used as a local path: an
/// `https://`, `http://`, `git@`, `ssh://` or `git://` URL, or anything
/// ending in `.git`.
pub open spec fn git_url_spec(s: Seq<char>) -> bool {
    ||| is_prefix("https://"@, s)
    ||| is_prefix("http://"@, s)
    ||| is_prefix("git@"@, s)
    ||| is_prefix("ssh://"@, s)
    ||| is_prefix("git://"@, s)
    ||| is_suffix(".git"@, s)
}

fn has_prefix(s: &Vec<char>, p: &str) -> (r: bool)
    ensures
        r == is_prefix(p@, s@),
{
    let pc = chars_of(p);
    starts_with(s, &pc)
}

/// Whether `s` names a git repository to clone (see [`git_url_spec`]).
pub fn looks_like_git_url(s: &str) -> (r: bool)
    ensures
        r == git_url_spec(s@),
{
    let c = chars_of(s);
    let git = chars_of(".git");
    has_prefix(&c, "https://") || has_prefix(&c, "http://") || has_prefix(&c, "git@") || has_prefix(
        &c,
        "ssh://",
    ) || has_prefix(&c, "git://") || ends_with(&c, &git)
}

/// The arguments to `git` that shallow-clone `url` into `dir`.
pub fn clone_args(url: &str, dir: &str) -> (r: Vec<String>)
    ensures
        strings_view(r@) == seq!["clone"@, "--depth"@, "1"@, url@, dir@],
{
    let mut v: Vec<String> = Vec::new();
    v.push(String::from_str("clone"));
    v.push(String::from_str("--depth"));
    v.push(String::from_str("1"));
    v.push(String::from_str(url));
    v.push(String::from_str(dir));
    proof {
        assert(strings_view(v@) =~= seq!["clone"@, "--depth"@, "1"@, url@, dir@]);
    }
    v
}

// ── JSON ─────────────────────────────────────────────────────────────

/// A JSON document as `serde_json` parses it; an object's keys are
/// distinct.
#[derive(Debug)]
pub enum JsonValue {
    Null,
    Bool(bool),
    Number(String),
    Str(String),
    Array(Vec<JsonValue>),
    Object(Vec<(String, JsonValue)>),
}

/// Position of `key` among an object's entries, or their number.
pub open spec fn entry_pos(entries: Seq<(String, JsonValue)>, key: Seq<char>) -> int
    decreases entries.len(),
{
    if entries.len() == 0 {
        0
    } else if entries[0].0@ == key {
        0
    } else {
        1 + entry_pos(entries.drop_first(), key)
    }
}

proof fn lemma_entry_pos(entries: Seq<(String, JsonValue)>, key: Seq<char>, i: int)
    requires
        0 <= i <= entries.len(),
        forall|j: int| 0 <= j < i ==> (#[trigger] entries[j]).0@ != key,
        i < entries.len() ==> entries[i].0@ == key,
    ensures
        entry_pos(entries, key) == i,
    decreases entries.len(),
{
    if entries.len() > 0 && entries[0].0@ != key {
        assert forall|j: int| 0 <= j < i - 1 implies (#[trigger] entries.drop_first()[j]).0@
            != key by {
            assert(entries.drop_first()[j] == entries[j + 1]);
        }
        lemma_entry_pos(entries.drop_first(), key, i - 1);
    }
}

#[verifier::external_type_specification]
#[verifier::external_body]
pub struct ExSerdeJsonValue(serde_json::Value);

/// What `serde_json::from_str::<serde_json::Value>` makes of a text, as a
/// [`JsonValue`]: `None` when it refuses the text.
pub uninterp spec fn json_parse(text: Seq<char>) -> Option<JsonValue>;

/// A `serde_json::Value` as a [`JsonValue`], variant for variant (a
/// number as `serde_json` prints it).
#[verifier::external_body]
fn json_value_of(v: serde_json::Value) -> JsonValue {
    match v {
        serde_json::Value::Null => JsonValue::Null,
        serde_json::Value::Bool(b) => JsonValue::Bool(b),
        serde_json::Value::Number(n) => JsonValue::Number(n.to_string()),
        serde_json::Value::String(t) => JsonValue::Str(t),
        serde_json::Value::Array(a) => JsonValue::Array(a.into_iter().map(json_value_of).collect()),
        serde_json::Value::Object(m) => JsonValue::Object(m.into_iter().map(|(k, x)| (k, json_value_of(x))).collect()),
    }
}

/// Wraps `serde_json::from_str::<serde_json::Value>`: the document `text`
/// holds, or `None` when it is not JSON. The result is a function of the
/// text alone, named [`json_parse`].
#[verifier::external_body]
fn parse_json(text: &str) -> (r: Option<JsonValue>)
    ensures
        r == json_parse(text@),
{
    match serde_json::from_str::<serde_json::Value>(text) {
        Ok(v) => Some(json_value_of(v)),
        Err(_) => None,
    }
}

/// `value.get(key)`: the member `key` of an object; nothing for other values.
pub open spec fn json_get(v: JsonValue, key: Seq<char>) -> Option<JsonValue> {
    match v {
        JsonValue::Object(entries) => {
            let i = entry_pos(entries@, key);
            if 0 <= i < entries@.len() {
                Some(entries@[i].1)
            } else {
                None
            }
        },
        _ => None,
    }
}

/// `value.as_str()`.
pub open spec fn json_str(v: JsonValue) -> Option<Seq<char>> {
    match v {
        JsonValue::Str(s) => Some(s@),
        _ => None,
    }
}

/// The keys of an object, in order; nothing for other values.
pub open spec fn json_keys(v: JsonValue) -> Option<Seq<Seq<char>>> {
    match v {
        JsonValue::Object(entries) => Some(entries@.map_values(|e: (String, JsonValue)| e.0@)),
        _ => None,
    }
}

impl JsonValue {
    pub fn get(&self, key: &str) -> (r: Option<&JsonValue>)
        ensures
            match r {
                Some(v) => json_get(*self, key@) == Some(*v),
                None => json_get(*self, key@) is None,
            },
    {
        match self {
            JsonValue::Object(entries) => {
                let mut i: usize = 0;
                while i < entries.len()
                    invariant
                        i <= entries.len(),
                        *self == JsonValue::Object(*entries),
                        forall|j: int| 0 <= j < i ==> (#[trigger] entries@[j]).0@ != key@,
                    decreases entries.len() - i,
                {
                    if crate::text::str_eq(entries[i].0.as_str(), key) {
                        proof {
                            lemma_entry_pos(entries@, key@, i as int);
                            assert(json_get(*self, key@) == Some(entries@[i as int].1));
                        }
                        let r = &entries[i].1;
                        proof {
                            assert(*r == entries@[i as int].1);
                        }
                        return Some(r);
                    }
                    i += 1;
                }
                proof {
                    lemma_entry_pos(entries@, key@, i as int);
                }
                None
            },
            _ => None,
        }
    }

    pub fn as_str(&self) -> (r: Option<&String>)
        ensures
            match r {
                Some(s) => json_str(*self) == Some(s@),
                None => json_str(*self) is None,
            },
    {
        match self {
            JsonValue::Str(s) => Some(s),
            _ => None,
        }
    }

    pub fn keys(&self) -> (r: Option<Vec<String>>)
        ensures
            match r {
                Some(ks) => json_keys(*self) == Some(strings_view(ks@)),
                None => json_keys(*self) is None,
            },
    {
        match self {
            JsonValue::Object(entries) => {
                let mut out: Vec<String> = Vec::new();
                let mut i: usize = 0;
                while i < entries.len()
                    invariant
                        i <= entries.len(),
                        strings_view(out@) == entries@.map_values(|e: (String, JsonValue)| e.0@).take(
                            i as int,
                        ),
                    decreases entries.len() - i,
                {
                    let ghost prev = strings_view(out@);
                    let k = entries[i].0.clone();
                    let ghost kv = k@;
                    out.push(k);
                    proof {
                        assert(strings_view(out@) =~= prev.push(kv));
                        assert(entries@.map_values(|e: (String, JsonValue)| e.0@).take(i + 1)
                            =~= entries@.map_values(|e: (String, JsonValue)| e.0@).take(i as int).push(
                            entries@[i as int].0@,
                        ));
                    }
                    i += 1;
                }
                proof {
                    assert(entries@.map_values(|e: (String, JsonValue)| e.0@).take(
                        entries.len() as int,
                    ) =~= entries@.map_values(|e: (String, JsonValue)| e.0@));
                }
                Some(out)
            },
            _ => None,
        }
    }
}

// ── Toolchains ───────────────────────────────────────────────────────

/// `node@<engines.node>` when `package.json` pins a node version, else `node`.
pub open spec fn node_spec(pkg: Option<JsonValue>) -> Seq<char> {
    let pinned = match pkg {
        Some(v) => match json_get(v, "engines"@) {
            Some(e) => match json_get(e, "node"@) {
                Some(n) => json_str(n),
                None => None,
            },
            None => None,
        },
        None => None,
    };
    match pinned {
        Some(c) => "node@"@ + c,
        None => "node"@,
    }
}

/// The keys of `package.json`'s `scripts`, or none.
pub open spec fn node_scripts_spec(pkg: Option<JsonValue>) -> Seq<Seq<char>> {
    match pkg {
        Some(v) => match json_get(v, "scripts"@) {
            Some(s) => match json_keys(s) {
                Some(ks) => ks,
                None => seq![],
            },
            None => seq![],
        },
        None => seq![],
    }
}

/// The node toolchain a `package.json` asks for (`pkg` is its parsed
/// content, when it could be read and parsed).
pub fn node_toolchain_spec(pkg: Option<&JsonValue>) -> (r: String)
    ensures
        r@ == node_spec(
            match pkg {
                Some(v) => Some(*v),
                None => None,
            },
        ),
{
    let pinned: Option<&String> = match pkg {
        Some(v) => match v.get("engines") {
            Some(e) => match e.get("node") {
                Some(n) => n.as_str(),
                None => None,
            },
            None => None,
        },
        None => None,
    };
    match pinned {
        Some(c) => {
            let mut out: Vec<char> = Vec::new();
            push_str(&mut out, "node@");
            push_str(&mut out, c.as_str());
            string_of(&out)
        },
        None => String::from_str("node"),
    }
}

/// The scripts a `package.json` defines.
pub fn node_scripts(pkg: Option<&JsonValue>) -> (r: Vec<String>)
    ensures
        strings_view(r@) == node_scripts_spec(
            match pkg {
                Some(v) => Some(*v),
                None => None,
            },
        ),
{
    match pkg {
        Some(v) => match v.get("scripts") {
            Some(s) => match s.keys() {
                Some(ks) => ks,
                None => {
                    let e: Vec<String> = Vec::new();
                    proof {
                        assert(strings_view(e@) =~= seq![]);
                    }
                    e
                },
            },
            None => {
                let e: Vec<String> = Vec::new();
                proof {
                    assert(strings_view(e@) =~= seq![]);
                }
                e
            },
        },
        None => {
            let e: Vec<String> = Vec::new();
            proof {
                assert(strings_view(e@) =~= seq![]);
            }
            e
        },
    }
}

/// The first of `ls` whose trimmed text starts with `prefix`, with the
/// prefix removed.
pub open spec fn first_line_after(ls: Seq<Seq<char>>, prefix: Seq<char>) -> Option<Seq<char>>
    decreases ls.len(),
{
    if ls.len() == 0 {
        None
    } else if is_prefix(prefix, trim(ls[0])) {
        Some(trim(ls[0]).skip(prefix.len() as int))
    } else {
        first_line_after(ls.drop_first(), prefix)
    }
}

fn first_line_after_exec(ls: &Vec<Vec<char>>, prefix: &str) -> (r: Option<Vec<char>>)
    ensures
        match r {
            Some(v) => first_line_after(ls@.map_values(|l: Vec<char>| l@), prefix@) == Some(v@),
            None => first_line_after(ls@.map_values(|l: Vec<char>| l@), prefix@) is None,
        },
{
    let ghost all = ls@.map_values(|l: Vec<char>| l@);
    let p = chars_of(prefix);
    let mut i: usize = 0;
    proof {
        assert(all.skip(0) =~= all);
    }
    while i < ls.len()
        invariant
            i <= ls.len(),
            all == ls@.map_values(|l: Vec<char>| l@),
            p@ == prefix@,
            first_line_after(all, prefix@) == first_line_after(all.skip(i as int), prefix@),
        decreases ls.len() - i,
    {
        let t = trim_ws(&ls[i]);
        proof {
            assert(all.skip(i as int)[0] == ls@[i as int]@);
            assert(all.skip(i as int).drop_first() =~= all.skip(i + 1));
        }
        if starts_with(&t, &p) {
            let rest = slice_chars(&t, p.len(), t.len());
            proof {
                assert(rest@ =~= t@.skip(p@.len() as int));
            }
            return Some(rest);
        }
        i += 1;
    }
    None
}

/// The text between the first and second `"` of `s` (`split('"').nth(1)`),
/// up to the end when there is no second one.
pub open spec fn quoted(s: Seq<char>) -> Option<Seq<char>> {
    let i = first_idx(s, |c: char| c == '"');
    if i >= s.len() {
        None
    } else {
        let r = s.skip(i + 1);
        Some(r.take(first_idx(r, |c: char| c == '"')))
    }
}

fn quoted_exec(s: &Vec<char>) -> (r: Option<Vec<char>>)
    ensures
        match r {
            Some(v) => quoted(s@) == Some(v@),
            None => quoted(s@) is None,
        },
{
    let k = crate::text::CharClass::Exactly('"');
    proof {
        assert(crate::text::class_pred(k) =~= (|c: char| c == '"'));
    }
    let i = crate::text::find_first(s, &k);
    if i >= s.len() {
        return None;
    }
    let rest = slice_chars(s, i + 1, s.len());
    proof {
        assert(rest@ =~= s@.skip(i + 1));
    }
    let j = crate::text::find_first(&rest, &k);
    let q = slice_chars(&rest, 0, j);
    proof {
        assert(q@ =~= rest@.take(j as int));
    }
    Some(q)
}

/// The channel a Rust project pins: `channel = "..."` in
/// `rust-toolchain.toml` (the first line starting with `channel`), else the
/// trimmed content of a plain `rust-toolchain` file.
pub open spec fn rust_channel(toml: Option<Seq<char>>, plain: Option<Seq<char>>) -> Option<Seq<char>> {
    let from_toml = match toml {
        Some(t) => match first_line_after(lines(t), "channel"@) {
            Some(rest) => quoted(rest),
            None => None,
        },
        None => None,
    };
    match from_toml {
        Some(c) => Some(c),
        None => match plain {
            Some(p) => Some(trim(p)),
            None => None,
        },
    }
}

/// `rust@<channel>` when the pinned channel is a version number (starts
/// with a digit), else `rust`: rustup channel names such as `stable` are
/// not version requirements.
pub open spec fn rust_spec(toml: Option<Seq<char>>, plain: Option<Seq<char>>) -> Seq<char> {
    match rust_channel(toml, plain) {
        Some(c) => if c.len() > 0 && is_ascii_digit(c[0]) {
            "rust@"@ + c
        } else {
            "rust"@
        },
        None => "rust"@,
    }
}

fn opt_view(s: Option<&str>) -> (r: Option<Vec<char>>)
    ensures
        match s {
            Some(x) => r matches Some(v) && v@ == x@,
            None => r is None,
        },
{
    match s {
        Some(x) => Some(chars_of(x)),
        None => None,
    }
}

/// The Rust toolchain a project pins; `toml` and `plain` are the contents
/// of its `rust-toolchain.toml` and `rust-toolchain` files, when readable.
pub fn rust_toolchain_spec(toml: Option<&str>, plain: Option<&str>) -> (r: String)
    ensures
        r@ == rust_spec(
            match toml {
                Some(t) => Some(t@),
                None => None,
            },
            match plain {
                Some(p) => Some(p@),
                None => None,
            },
        ),
{
    let from_toml: Option<Vec<char>> = match toml {
        Some(t) => {
            let tc = chars_of(t);
            let ls = split_lines(&tc);
            proof {
                assert(ls@.map_values(|l: Vec<char>| l@) =~= lines(t@));
            }
            match first_line_after_exec(&ls, "channel") {
                Some(rest) => quoted_exec(&rest),
                None => None,
            }
        },
        None => None,
    };
    let channel: Option<Vec<char>> = match from_toml {
        Some(c) => Some(c),
        None => match opt_view(plain) {
            Some(p) => Some(trim_ws(&p)),
            None => None,
        },
    };
    match channel {
        Some(c) => {
            if c.len() > 0 && '0' <= c[0] && c[0] <= '9' {
                let mut out: Vec<char> = Vec::new();
                push_str(&mut out, "rust@");
                push_chars(&mut out, &c);
                string_of(&out)
            } else {
                String::from_str("rust")
            }
        },
        None => String::from_str("rust"),
    }
}

/// `go@<version>` from `go.mod`'s first `go <version>` line, else `go`.
pub open spec fn go_spec(go_mod: Option<Seq<char>>) -> Seq<char> {
    match go_mod {
        Some(t) => match first_line_after(lines(t), "go "@) {
            Some(v) => "go@"@ + trim(v),
            None => "go"@,
        },
        None => "go"@,
    }
}

/// The Go toolchain a `go.mod` (its content, when readable) asks for.
pub fn go_toolchain_spec(go_mod: Option<&str>) -> (r: String)
    ensures
        r@ == go_spec(
            match go_mod {
                Some(t) => Some(t@),
                None => None,
            },
        ),
{
    match go_mod {
        Some(t) => {
            let tc = chars_of(t);
            let ls = split_lines(&tc);
            proof {
                assert(ls@.map_values(|l: Vec<char>| l@) =~= lines(t@));
            }
            match first_line_after_exec(&ls, "go ") {
                Some(v) => {
                    let mut out: Vec<char> = Vec::new();
                    push_str(&mut out, "go@");
                    let tv = trim_ws(&v);
                    push_chars(&mut out, &tv);
                    string_of(&out)
                },
                None => String::from_str("go"),
            }
        },
        None => String::from_str("go"),
    }
}

// ── Detection ────────────────────────────────────────────────────────

/// What a source directory holds, as far as detection looks: which marker
/// files exist, and the text of the files it reads (each `None` when
/// missing or unreadable).
#[derive(Debug)]
pub struct ProjectFiles {
    pub cargo_toml: bool,
    pub package_json: bool,
    pub pyproject_toml: bool,
    pub setup_py: bool,
    pub requirements_txt: bool,
    pub go_mod: bool,
    /// `Makefile` or `makefile`.
    pub makefile: bool,
    pub rust_toolchain_toml_text: Option<String>,
    pub rust_toolchain_text: Option<String>,
    pub package_json_text: Option<String>,
    pub go_mod_text: Option<String>,
}

/// Everything `build` needs to drive a project through resolve and a
/// sandboxed build.
#[derive(Debug)]
pub struct ProjectPlan {
    pub source_dir: String,
    /// Whether `source_dir` is a temporary clone the caller cleans up.
    pub is_temp: bool,
    pub toolchain_specs: Vec<String>,
    pub build_cmd: Vec<String>,
    pub test_cmd: Option<Vec<String>>,
    /// Not every build system has a "run the project" convention.
    pub run_cmd: Option<Vec<String>>,
}

/// Why detection failed.
#[derive(Debug)]
pub enum DetectError {
    /// None of the recognized build files is there.
    NoBuildSystem { dir: String },
}

impl DetectError {
    pub fn message(&self) -> (r: String)
        ensures
            match self {
                DetectError::NoBuildSystem { dir } => r@ == "couldn't detect a build system in "@
                    + dir@
                    + " (looked for Cargo.toml, package.json, pyproject.toml/setup.py/requirements.txt, go.mod, Makefile)"@,
            },
    {
        match self {
            DetectError::NoBuildSystem { dir } => {
                let mut out: Vec<char> = Vec::new();
                push_str(&mut out, "couldn't detect a build system in ");
                push_str(&mut out, dir.as_str());
                push_str(
                    &mut out,
                    " (looked for Cargo.toml, package.json, pyproject.toml/setup.py/requirements.txt, go.mod, Makefile)",
                );
                string_of(&out)
            },
        }
    }
}

pub open spec fn opt_cmd(c: Option<Vec<String>>) -> Option<Seq<Seq<char>>> {
    match c {
        Some(v) => Some(strings_view(v@)),
        None => None,
    }
}

/// The plan's commands as text: toolchains, build, test, run.
pub open spec fn plan_spec(p: ProjectPlan) -> (Seq<Seq<char>>, Seq<Seq<char>>, Option<Seq<Seq<char>>>, Option<Seq<Seq<char>>>) {
    (strings_view(p.toolchain_specs@), strings_view(p.build_cmd@), opt_cmd(p.test_cmd), opt_cmd(p.run_cmd))
}

pub open spec fn opt_text(s: Option<String>) -> Option<Seq<char>> {
    match s {
        Some(x) => Some(x@),
        None => None,
    }
}

/// The document a `package.json` text holds; nothing when there is no
/// text or it is not JSON.
pub open spec fn package_json_of(text: Option<String>) -> Option<JsonValue> {
    match text {
        Some(t) => json_parse(t@),
        None => None,
    }
}

/// The plan for the first build system found, checked in this order:
/// `Cargo.toml`, `package.json`, `pyproject.toml`/`setup.py`,
/// `requirements.txt`, `go.mod`, `Makefile`.
pub open spec fn detect_spec(f: ProjectFiles) -> Option<(Seq<Seq<char>>, Seq<Seq<char>>, Option<Seq<Seq<char>>>, Option<Seq<Seq<char>>>)> {
    if f.cargo_toml {
        Some((
            seq![rust_spec(opt_text(f.rust_toolchain_toml_text), opt_text(f.rust_toolchain_text))],
            seq!["cargo"@, "build"@],
            Some(seq!["cargo"@, "test"@]),
            Some(seq!["cargo"@, "run"@]),
        ))
    } else if f.package_json {
        let scripts = node_scripts_spec(package_json_of(f.package_json_text));
        Some((
            seq![node_spec(package_json_of(f.package_json_text))],
            seq!["npm"@, "install"@],
            if scripts.contains("test"@) {
                Some(seq!["npm"@, "test"@])
            } else {
                None
            },
            if scripts.contains("start"@) {
                Some(seq!["npm"@, "start"@])
            } else {
                None
            },
        ))
    } else if f.pyproject_toml || f.setup_py {
        Some((seq!["python"@], seq!["pip"@, "install"@, "-e"@, "."@], None, None))
    } else if f.requirements_txt {
        Some((seq!["python"@], seq!["pip"@, "install"@, "-r"@, "requirements.txt"@], None, None))
    } else if f.go_mod {
        Some((
            seq![go_spec(opt_text(f.go_mod_text))],
            seq!["go"@, "build"@, "./..."@],
            Some(seq!["go"@, "test"@, "./..."@]),
            Some(seq!["go"@, "run"@, "."@]),
        ))
    } else if f.makefile {
        Some((seq!["make"@], seq!["make"@], Some(seq!["make"@, "test"@]), None))
    } else {
        None
    }
}

/// Detection succeeds exactly when one of the recognized build files is
/// there, and `Cargo.toml` wins over everything else.
pub proof fn lemma_detect_succeeds_iff_build_file(f: ProjectFiles)
    ensures
        detect_spec(f) is Some <==> (f.cargo_toml || f.package_json || f.pyproject_toml || f.setup_py
            || f.requirements_txt || f.go_mod || f.makefile),
        f.cargo_toml ==> (detect_spec(f) matches Some(p) && p.1 == seq!["cargo"@, "build"@]),
{
}

/// The commands planned for each build system, the first found winning:
/// Cargo builds, tests and runs with `cargo build`/`test`/`run`; a Node
/// project installs with `npm install` and tests or starts with
/// `npm test`/`npm start` exactly when package.json has that script; a
/// Python project installs itself (`pip install -e .`) or its
/// requirements (`pip install -r requirements.txt`) and has no test or run
/// command; Go builds, tests and runs `./...`/`.`; a Makefile project
/// runs `make` and `make test`. Each plan asks for one toolchain:
/// `rust`, `node`, `python`, `go` or `make`, pinned as the project's files
/// say.
pub proof fn lemma_detect_commands(f: ProjectFiles)
    ensures
        f.cargo_toml ==> detect_spec(f) == Some((
            seq![rust_spec(opt_text(f.rust_toolchain_toml_text), opt_text(f.rust_toolchain_text))],
            seq!["cargo"@, "build"@],
            Some(seq!["cargo"@, "test"@]),
            Some(seq!["cargo"@, "run"@]),
        )),
        !f.cargo_toml && f.package_json ==> (detect_spec(f) matches Some(p) && p.0 == seq![
            node_spec(package_json_of(f.package_json_text)),
        ] && p.1 == seq!["npm"@, "install"@] && (p.2 is Some <==> node_scripts_spec(
            package_json_of(f.package_json_text),
        ).contains("test"@)) && (p.2 is Some ==> p.2 == Some(seq!["npm"@, "test"@])) && (p.3 is Some
            <==> node_scripts_spec(package_json_of(f.package_json_text)).contains("start"@)) && (
        p.3 is Some ==> p.3 == Some(seq!["npm"@, "start"@]))),
        !f.cargo_toml && !f.package_json && (f.pyproject_toml || f.setup_py) ==> detect_spec(f)
            == Some((seq!["python"@], seq!["pip"@, "install"@, "-e"@, "."@], None::<Seq<Seq<char>>>, None::<Seq<Seq<char>>>)),
        !f.cargo_toml && !f.package_json && !f.pyproject_toml && !f.setup_py && f.requirements_txt
            ==> detect_spec(f) == Some((
            seq!["python"@],
            seq!["pip"@, "install"@, "-r"@, "requirements.txt"@],
            None::<Seq<Seq<char>>>,
            None::<Seq<Seq<char>>>,
        )),
        !f.cargo_toml && !f.package_json && !f.pyproject_toml && !f.setup_py && !f.requirements_txt
            && f.go_mod ==> detect_spec(f) == Some((
            seq![go_spec(opt_text(f.go_mod_text))],
            seq!["go"@, "build"@, "./..."@],
            Some(seq!["go"@, "test"@, "./..."@]),
            Some(seq!["go"@, "run"@, "."@]),
        )),
        !f.cargo_toml && !f.package_json && !f.pyproject_toml && !f.setup_py && !f.requirements_txt
            && !f.go_mod && f.makefile ==> detect_spec(f) == Some((
            seq!["make"@],
            seq!["make"@],
            Some(seq!["make"@, "test"@]),
            None::<Seq<Seq<char>>>,
        )),
{
}

fn words(items: &[&str]) -> (r: Vec<String>)
    ensures
        strings_view(r@) == items@.map_values(|s: &str| s@),
{
    let mut out: Vec<String> = Vec::new();
    let mut i: usize = 0;
    while i < items.len()
        invariant
            i <= items.len(),
            strings_view(out@) == items@.map_values(|s: &str| s@).take(i as int),
        decreases items.len() - i,
    {
        let ghost prev = strings_view(out@);
        out.push(String::from_str(items[i]));
        proof {
            assert(strings_view(out@) =~= prev.push(items@[i as int]@));
            assert(items@.map_values(|s: &str| s@).take(i + 1) =~= items@.map_values(|s: &str| s@).take(
                i as int,
            ).push(items@[i as int]@));
        }
        i += 1;
    }
    proof {
        assert(items@.map_values(|s: &str| s@).take(items.len() as int) =~= items@.map_values(
            |s: &str| s@,
        ));
    }
    out
}

fn one(s: String) -> (r: Vec<String>)
    ensures
        strings_view(r@) == seq![s@],
{
    let mut v: Vec<String> = Vec::new();
    v.push(s);
    proof {
        assert(strings_view(v@) =~= seq![s@]);
    }
    v
}

fn contains_string(list: &Vec<String>, s: &str) -> (r: bool)
    ensures
        r == strings_view(list@).contains(s@),
{
    let mut i: usize = 0;
    while i < list.len()
        invariant
            i <= list.len(),
            forall|j: int| 0 <= j < i ==> list@[j]@ != s@,
        decreases list.len() - i,
    {
        if crate::text::str_eq(list[i].as_str(), s) {
            proof {
                assert(strings_view(list@)[i as int] == s@);
            }
            return true;
        }
        i += 1;
    }
    proof {
        if strings_view(list@).contains(s@) {
            let k = choose|k: int| 0 <= k < strings_view(list@).len() && strings_view(list@)[k] == s@;
            assert(list@[k]@ == s@);
        }
    }
    false
}

fn opt_str(s: &Option<String>) -> (r: Option<&str>)
    ensures
        match s {
            Some(x) => r matches Some(y) && y@ == x@,
            None => r is None,
        },
{
    match s {
        Some(x) => Some(x.as_str()),
        None => None,
    }
}

/// Detect the build system of the project at `source_dir` from what it
/// holds, and plan its toolchain, build, test and run commands; an error
/// when no recognized build file is there. The plan is not a temporary
/// clone; the caller sets `is_temp` for one.
pub fn detect(source_dir: &str, files: &ProjectFiles) -> (r: Result<ProjectPlan, DetectError>)
    ensures
        match r {
            Ok(p) => {
                &&& detect_spec(*files) == Some(plan_spec(p))
                &&& p.source_dir@ == source_dir@
                &&& !p.is_temp
            },
            Err(DetectError::NoBuildSystem { dir }) => detect_spec(*files) is None && dir@
                == source_dir@,
        },
{
    let dir = String::from_str(source_dir);
    if files.cargo_toml {
        let spec = rust_toolchain_spec(
            opt_str(&files.rust_toolchain_toml_text),
            opt_str(&files.rust_toolchain_text),
        );
        let p = ProjectPlan {
            source_dir: dir,
            is_temp: false,
            toolchain_specs: one(spec),
            build_cmd: words(&["cargo", "build"]),
            test_cmd: Some(words(&["cargo", "test"])),
            run_cmd: Some(words(&["cargo", "run"])),
        };
        proof {
            assert(strings_view(p.build_cmd@) =~= seq!["cargo"@, "build"@]);
            assert(opt_cmd(p.test_cmd) =~= Some(seq!["cargo"@, "test"@]));
            assert(opt_cmd(p.run_cmd) =~= Some(seq!["cargo"@, "run"@]));
        }
        return Ok(p);
    }
    if files.package_json {
        let parsed: Option<JsonValue> = match &files.package_json_text {
            Some(t) => parse_json(t.as_str()),
            None => None,
        };
        let pj: Option<&JsonValue> = match &parsed {
            Some(v) => Some(v),
            None => None,
        };
        let spec = node_toolchain_spec(pj);
        let scripts = node_scripts(pj);
        let test_cmd = if contains_string(&scripts, "test") {
            Some(words(&["npm", "test"]))
        } else {
            None
        };
        let run_cmd = if contains_string(&scripts, "start") {
            Some(words(&["npm", "start"]))
        } else {
            None
        };
        let p = ProjectPlan {
            source_dir: dir,
            is_temp: false,
            toolchain_specs: one(spec),
            build_cmd: words(&["npm", "install"]),
            test_cmd,
            run_cmd,
        };
        proof {
            assert(strings_view(p.build_cmd@) =~= seq!["npm"@, "install"@]);
            if p.test_cmd is Some {
                assert(opt_cmd(p.test_cmd) =~= Some(seq!["npm"@, "test"@]));
            }
            if p.run_cmd is Some {
                assert(opt_cmd(p.run_cmd) =~= Some(seq!["npm"@, "start"@]));
            }
        }
        return Ok(p);
    }
    if files.pyproject_toml || files.setup_py {
        let p = ProjectPlan {
            source_dir: dir,
            is_temp: false,
            toolchain_specs: words(&["python"]),
            build_cmd: words(&["pip", "install", "-e", "."]),
            test_cmd: None,
            run_cmd: None,
        };
        proof {
            assert(strings_view(p.toolchain_specs@) =~= seq!["python"@]);
            assert(strings_view(p.build_cmd@) =~= seq!["pip"@, "install"@, "-e"@, "."@]);
        }
        return Ok(p);
    }
    if files.requirements_txt {
        let p = ProjectPlan {
            source_dir: dir,
            is_temp: false,
            toolchain_specs: words(&["python"]),
            build_cmd: words(&["pip", "install", "-r", "requirements.txt"]),
            test_cmd: None,
            run_cmd: None,
        };
        proof {
            assert(strings_view(p.toolchain_specs@) =~= seq!["python"@]);
            assert(strings_view(p.build_cmd@) =~= seq!["pip"@, "install"@, "-r"@, "requirements.txt"@]);
        }
        return Ok(p);
    }
    if files.go_mod {
        let spec = go_toolchain_spec(opt_str(&files.go_mod_text));
        let p = ProjectPlan {
            source_dir: dir,
            is_temp: false,
            toolchain_specs: one(spec),
            build_cmd: words(&["go", "build", "./..."]),
            test_cmd: Some(words(&["go", "test", "./..."])),
            run_cmd: Some(words(&["go", "run", "."])),
        };
        proof {
            assert(strings_view(p.build_cmd@) =~= seq!["go"@, "build"@, "./..."@]);
            assert(opt_cmd(p.test_cmd) =~= Some(seq!["go"@, "test"@, "./..."@]));
            assert(opt_cmd(p.run_cmd) =~= Some(seq!["go"@, "run"@, "."@]));
        }
        return Ok(p);
    }
    if files.makefile {
        let p = ProjectPlan {
            source_dir: dir,
            is_temp: false,
            toolchain_specs: words(&["make"]),
            build_cmd: words(&["make"]),
            test_cmd: Some(words(&["make", "test"])),
            run_cmd: None,
        };
        proof {
            assert(strings_view(p.toolchain_specs@) =~= seq!["make"@]);
            assert(strings_view(p.build_cmd@) =~= seq!["make"@]);
            assert(opt_cmd(p.test_cmd) =~= Some(seq!["make"@, "test"@]));
        }
        return Ok(p);
    }
    Err(DetectError::NoBuildSystem { dir })
}

// ── After the build ──────────────────────────────────────────────────

/// What becomes of a build's source directory once the build is over.
#[derive(Debug, Clone, PartialEq, Eq)]
pub enum Cleanup {
    /// A temporary clone whose build succeeded: remove it.
    RemoveClone,
    /// A temporary clone whose build failed: keep it, and print this.
    KeepClone { warning: String },
    /// A directory of the user's: leave it alone.
    Nothing,
}

/// The cleanup of `source_dir` after a build that `succeeded` or not; only
/// a temporary clone is touched, and a failed one is kept for inspection.
pub fn cleanup_after_build(is_temp: bool, succeeded: bool, source_dir: &str) -> (r: Cleanup)
    ensures
        !is_temp ==> r == Cleanup::Nothing,
        is_temp && succeeded ==> r == Cleanup::RemoveClone,
        is_temp && !succeeded ==> (r matches Cleanup::KeepClone { warning } && warning@
            == "⚠ build failed — leaving the clone at "@ + source_dir@ + " for inspection"@),
{
    if !is_temp {
        Cleanup::Nothing
    } else if succeeded {
        Cleanup::RemoveClone
    } else {
        let mut out: Vec<char> = Vec::new();
        push_str(&mut out, "⚠ build failed — leaving the clone at ");
        push_str(&mut out, source_dir);
        push_str(&mut out, " for inspection");
        Cleanup::KeepClone { warning: string_of(&out) }
    }
}

} // verus!
