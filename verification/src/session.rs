//! Persistent sessions: an OverlayFS mount whose writable upper layer
//! outlives each `session exec`, so files written by one command are there
//! for the next. This module lays out a session's directories, names it,
//! builds the mount options and the messages, and reads `/proc/mounts`
//! text; mounting, spawning and persisting are the caller's.
use vstd::prelude::*;

use crate::cellar::{first_where, lemma_first_where};
use crate::config::Config;
use crate::types::ResolvedEnvironment;
use crate::paths::{join, join_path};
use crate::text::{
    chars_of, dec, lines, numeral, push_dec, push_numeral, push_str, split_lines, split_words,
    str_eq, string_of, words,
};

verus! {

broadcast use vstd::string::group_string_axioms;

pub open spec fn strings_view(v: Seq<String>) -> Seq<Seq<char>> {
    v.map_values(|s: String| s@)
}

// ── Layout ───────────────────────────────────────────────────────────

pub open spec fn sessions_dir_spec(cache_dir: Seq<char>) -> Seq<char> {
    join(cache_dir, "sessions"@)
}

pub open spec fn session_dir_spec(cache_dir: Seq<char>, id: Seq<char>) -> Seq<char> {
    join(sessions_dir_spec(cache_dir), id)
}

/// Where all sessions live: `<cache>/sessions`.
pub fn sessions_dir(config: &Config) -> (r: String)
    ensures
        r@ == sessions_dir_spec(config.cache_dir@),
{
    join_path(config.cache_dir.as_str(), "sessions")
}

/// A session's directory: `<cache>/sessions/<id>`.
pub fn session_dir(config: &Config, session_id: &str) -> (r: String)
    ensures
        r@ == session_dir_spec(config.cache_dir@, session_id@),
{
    let d = sessions_dir(config);
    join_path(d.as_str(), session_id)
}

/// A session's persisted configuration: `<session dir>/config.toml`.
pub fn session_config_path(config: &Config, session_id: &str) -> (r: String)
    ensures
        r@ == join(session_dir_spec(config.cache_dir@, session_id@), "config.toml"@),
{
    let d = session_dir(config, session_id);
    join_path(d.as_str(), "config.toml")
}

/// The overlay's writable layer: `<session dir>/upper`.
pub fn overlay_upper_dir(config: &Config, session_id: &str) -> (r: String)
    ensures
        r@ == join(session_dir_spec(config.cache_dir@, session_id@), "upper"@),
{
    let d = session_dir(config, session_id);
    join_path(d.as_str(), "upper")
}

/// The overlay's kernel work directory: `<session dir>/work`.
pub fn overlay_work_dir(config: &Config, session_id: &str) -> (r: String)
    ensures
        r@ == join(session_dir_spec(config.cache_dir@, session_id@), "work"@),
{
    let d = session_dir(config, session_id);
    join_path(d.as_str(), "work")
}

/// Where a session's overlay is mounted: `/tmp/buckets-session-<id>`.
pub fn default_mount_point(session_id: &str) -> (r: String)
    ensures
        r@ == "/tmp/buckets-session-"@ + session_id@,
{
    let mut out: Vec<char> = Vec::new();
    push_str(&mut out, "/tmp/buckets-session-");
    push_str(&mut out, session_id);
    string_of(&out)
}

// ── Session ids ──────────────────────────────────────────────────────

/// Two lower-case hex digits of a byte, as `{:02x}` prints it.
pub open spec fn hex2(b: u8) -> Seq<char> {
    if b < 16 {
        seq!['0'] + numeral(b as nat, 16)
    } else {
        numeral(b as nat, 16)
    }
}

pub open spec fn hex_bytes(bs: Seq<u8>) -> Seq<char>
    decreases bs.len(),
{
    if bs.len() == 0 {
        seq![]
    } else {
        hex_bytes(bs.drop_last()) + hex2(bs.last())
    }
}

/// A session id: `s`, the creation time in seconds as lower-case hex, `-`,
/// and random bytes as hex.
pub open spec fn session_id_text(secs: u64, random: Seq<u8>) -> Seq<char> {
    seq!['s'] + numeral(secs as nat, 16) + seq!['-'] + hex_bytes(random)
}

proof fn lemma_numeral_nonempty(n: nat, b: nat)
    ensures
        numeral(n, b).len() >= 1,
    decreases n,
{
    if !(b < 2 || n < b) {
        assert(n / b < n) by (nonlinear_arith)
            requires
                b >= 2,
                n >= b,
        ;
        lemma_numeral_nonempty(n / b, b);
    }
}

proof fn lemma_hex2_len(b: u8)
    ensures
        hex2(b).len() == 2,
{
    if b < 16 {
        assert(numeral(b as nat, 16).len() == 1);
    } else {
        assert((b as nat) / 16 < 16);
        assert(numeral((b as nat) / 16, 16).len() == 1);
    }
}

proof fn lemma_hex_bytes_len(bs: Seq<u8>)
    ensures
        hex_bytes(bs).len() == 2 * bs.len(),
    decreases bs.len(),
{
    if bs.len() > 0 {
        lemma_hex_bytes_len(bs.drop_last());
        lemma_hex2_len(bs.last());
    }
}

/// The id of a session created at `secs` (seconds since the epoch) with
/// `random` bytes.
pub fn session_id_from(secs: u64, random: &Vec<u8>) -> (r: String)
    ensures
        r@ == session_id_text(secs, random@),
{
    let mut out: Vec<char> = vec!['s'];
    push_numeral(&mut out, secs, 16);
    out.push('-');
    let ghost head = out@;
    let mut i: usize = 0;
    proof {
        assert(random@.take(0) =~= seq![]);
    }
    while i < random.len()
        invariant
            i <= random.len(),
            out@ == head + hex_bytes(random@.take(i as int)),
        decreases random.len() - i,
    {
        let b = random[i];
        if b < 16 {
            out.push('0');
        }
        push_numeral(&mut out, b as u64, 16);
        proof {
            assert(random@.take(i + 1).drop_last() =~= random@.take(i as int));
            assert(random@.take(i + 1).last() == b);
            assert(out@ =~= head + hex_bytes(random@.take(i + 1)));
        }
        i += 1;
    }
    proof {
        assert(random@.take(random.len() as int) =~= random@);
        assert(out@ =~= session_id_text(secs, random@));
    }
    string_of(&out)
}

/// Wraps `SystemTime::now().duration_since(UNIX_EPOCH)` in whole seconds;
/// `None` when the clock is before the epoch. Depends on the clock, so
/// nothing is stated of the result.
#[verifier::external_body]
fn unix_time_secs() -> Option<u64> {
    match std::time::SystemTime::now().duration_since(std::time::UNIX_EPOCH) {
        Ok(d) => Some(d.as_secs()),
        Err(_) => None,
    }
}

/// Wraps `BuildHasher::hash_one` of a constant under a new `RandomState`,
/// whose keys std draws at random. Depends on chance.
#[verifier::external_body]
fn random_u64() -> u64 {
    std::hash::BuildHasher::hash_one(&std::collections::hash_map::RandomState::new(), 0u8)
}

/// The four low bytes of `x`, least significant first.
fn low_bytes(x: u64) -> (r: Vec<u8>)
    ensures
        r@.len() == 4,
{
    let mut v: Vec<u8> = Vec::new();
    let mut y = x;
    let mut i: usize = 0;
    while i < 4
        invariant
            i <= 4,
            v@.len() == i,
        decreases 4 - i,
    {
        v.push((y % 256) as u8);
        y = y / 256;
        i += 1;
    }
    v
}

/// A fresh session id: the current time in seconds since the epoch (zero
/// for a clock before it) and four random bytes, as [`session_id_text`]
/// spells them (for example `s65f0a1b2-9c04e2ff`).
pub fn generate_session_id() -> (r: String)
    ensures
        exists|secs: u64, random: Seq<u8>|
            random.len() == 4 && #[trigger] session_id_text(secs, random) == r@,
        r@.len() > 8,
        r@.contains('-'),
{
    let secs = match unix_time_secs() {
        Some(t) => t,
        None => 0,
    };
    let bytes = low_bytes(random_u64());
    let r = session_id_from(secs, &bytes);
    proof {
        lemma_numeral_nonempty(secs as nat, 16);
        lemma_hex_bytes_len(bytes@);
        let n = numeral(secs as nat, 16);
        assert(r@[1 + n.len() as int] == '-');
    }
    r
}

// ── Mounts ───────────────────────────────────────────────────────────

/// The entries joined with `:`.
pub open spec fn join_colon(s: Seq<Seq<char>>) -> Seq<char>
    decreases s.len(),
{
    if s.len() == 0 {
        seq![]
    } else if s.len() == 1 {
        s[0]
    } else {
        join_colon(s.drop_last()) + seq![':'] + s.last()
    }
}

pub open spec fn overlay_options_spec(lower: Seq<Seq<char>>, upper: Seq<char>, work: Seq<char>) -> Seq<char> {
    "lowerdir="@ + join_colon(lower) + ",upperdir="@ + upper + ",workdir="@ + work
        + ",userxattr,redirect_dir=on"@
}

fn push_joined(out: &mut Vec<char>, items: &Vec<String>)
    ensures
        final(out)@ == old(out)@ + join_colon(strings_view(items@)),
{
    let ghost start = out@;
    let ghost all = strings_view(items@);
    let mut i: usize = 0;
    proof {
        assert(all.take(0) =~= seq![]);
        assert(out@ =~= start + join_colon(all.take(0)));
    }
    while i < items.len()
        invariant
            i <= items.len(),
            all == strings_view(items@),
            out@ == start + join_colon(all.take(i as int)),
        decreases items.len() - i,
    {
        proof {
            assert(all.take(i + 1).drop_last() =~= all.take(i as int));
            assert(all.take(i + 1).last() == items@[i as int]@);
        }
        if i > 0 {
            out.push(':');
        }
        push_str(out, items[i].as_str());
        proof {
            if i == 0 {
                assert(out@ =~= start + join_colon(all.take(1)));
            } else {
                assert(out@ =~= start + join_colon(all.take(i + 1)));
            }
        }
        i += 1;
    }
    proof {
        assert(all.take(items.len() as int) =~= all);
    }
}

/// The OverlayFS mount options: the read-only lower layers (joined with
/// `:`), the writable upper layer and the work directory.
pub fn overlay_options(lower: &Vec<String>, upper: &str, work: &str) -> (r: String)
    ensures
        r@ == overlay_options_spec(strings_view(lower@), upper@, work@),
{
    let mut out: Vec<char> = Vec::new();
    push_str(&mut out, "lowerdir=");
    push_joined(&mut out, lower);
    push_str(&mut out, ",upperdir=");
    push_str(&mut out, upper);
    push_str(&mut out, ",workdir=");
    push_str(&mut out, work);
    push_str(&mut out, ",userxattr,redirect_dir=on");
    string_of(&out)
}

/// The arguments to `mount` that mount an overlay with `options` at
/// `mount_point`.
pub fn overlay_mount_args(options: &str, mount_point: &str) -> (r: Vec<String>)
    ensures
        strings_view(r@) == seq!["-t"@, "overlay"@, "overlay"@, "-o"@, options@, mount_point@],
{
    let mut v: Vec<String> = Vec::new();
    v.push(String::from_str("-t"));
    v.push(String::from_str("overlay"));
    v.push(String::from_str("overlay"));
    v.push(String::from_str("-o"));
    v.push(String::from_str(options));
    v.push(String::from_str(mount_point));
    proof {
        assert(strings_view(v@) =~= seq!["-t"@, "overlay"@, "overlay"@, "-o"@, options@, mount_point@]);
    }
    v
}

/// The arguments to `mount` that mount a tmpfs of `size` at `path`.
pub fn tmpfs_mount_args(size: &str, path: &str) -> (r: Vec<String>)
    ensures
        strings_view(r@) == seq![
            "-t"@,
            "tmpfs"@,
            "tmpfs"@,
            "-o"@,
            "size="@ + size@ + ",mode=0755"@,
            path@,
        ],
{
    let mut opts: Vec<char> = Vec::new();
    push_str(&mut opts, "size=");
    push_str(&mut opts, size);
    push_str(&mut opts, ",mode=0755");
    let mut v: Vec<String> = Vec::new();
    v.push(String::from_str("-t"));
    v.push(String::from_str("tmpfs"));
    v.push(String::from_str("tmpfs"));
    v.push(String::from_str("-o"));
    v.push(string_of(&opts));
    v.push(String::from_str(path));
    proof {
        assert(strings_view(v@) =~= seq![
            "-t"@,
            "tmpfs"@,
            "tmpfs"@,
            "-o"@,
            "size="@ + size@ + ",mode=0755"@,
            path@,
        ]);
    }
    v
}

/// Whether some line of `/proc/mounts` text has `path` as its second
/// field (the mount point).
pub open spec fn mounted_spec(content: Seq<char>, path: Seq<char>) -> bool {
    exists|i: int|
        0 <= i < lines(content).len() && words(#[trigger] lines(content)[i]).len() > 1 && words(
            lines(content)[i],
        )[1] == path
}

/// Whether `path` is a mount point according to `/proc/mounts` text.
pub fn mounts_contain(content: &str, path: &str) -> (r: bool)
    ensures
        r == mounted_spec(content@, path@),
{
    let c = chars_of(content);
    let ls = split_lines(&c);
    let p = chars_of(path);
    let mut i: usize = 0;
    while i < ls.len()
        invariant
            i <= ls.len(),
            p@ == path@,
            c@ == content@,
            ls@.len() == lines(c@).len(),
            forall|j: int| 0 <= j < ls@.len() ==> #[trigger] ls@[j]@ == lines(c@)[j],
            forall|j: int|
                0 <= j < i ==> !(words(#[trigger] lines(c@)[j]).len() > 1 && words(lines(c@)[j])[1]
                    == path@),
        decreases ls.len() - i,
    {
        let ws = split_words(&ls[i]);
        proof {
            assert(ls@[i as int]@ == lines(c@)[i as int]);
        }
        if ws.len() > 1 && crate::text::chars_eq(&ws[1], &p) {
            proof {
                assert(words(lines(c@)[i as int])[1] == path@);
            }
            return true;
        }
        i += 1;
    }
    false
}

// ── Session records ──────────────────────────────────────────────────

/// Metadata of one session, persisted with it.
#[derive(Debug)]
pub struct SessionConfig {
    pub session_id: String,
    pub created_at: String,
    pub mount_point: String,
    pub overlay_lower: String,
    pub overlay_upper: String,
    pub overlay_work: String,
    pub upper_is_tmpfs: bool,
    pub upper_is_zram: bool,
    pub specs: Vec<String>,
    pub toolchain_dirs: Vec<String>,
    pub pid: Option<u64>,
}

/// A running session: its record and, once resolved, its environment.
#[derive(Debug)]
pub struct Session {
    pub config: SessionConfig,
    pub resolved: Option<ResolvedEnvironment>,
}

/// The record of a session just started: its overlay layers (the lower
/// layers joined with `:`), backing, specs and toolchain directories, and
/// no process yet.
pub fn new_session_config(
    session_id: String,
    created_at: String,
    mount_point: String,
    lower: &Vec<String>,
    upper: String,
    work: String,
    use_tmpfs: bool,
    use_zram: bool,
    specs: Vec<String>,
) -> (r: SessionConfig)
    ensures
        r.session_id == session_id,
        r.created_at == created_at,
        r.mount_point == mount_point,
        r.overlay_lower@ == join_colon(strings_view(lower@)),
        r.overlay_upper == upper,
        r.overlay_work == work,
        r.upper_is_tmpfs == use_tmpfs,
        r.upper_is_zram == use_zram,
        r.specs == specs,
        strings_view(r.toolchain_dirs@) == strings_view(lower@),
        r.pid is None,
{
    let mut joined: Vec<char> = Vec::new();
    push_joined(&mut joined, lower);
    let mut dirs: Vec<String> = Vec::new();
    let mut i: usize = 0;
    while i < lower.len()
        invariant
            i <= lower.len(),
            strings_view(dirs@) == strings_view(lower@).take(i as int),
        decreases lower.len() - i,
    {
        let ghost prev = strings_view(dirs@);
        let d = lower[i].clone();
        let ghost dv = d@;
        dirs.push(d);
        proof {
            assert(strings_view(dirs@) =~= prev.push(dv));
            assert(strings_view(lower@).take(i + 1) =~= strings_view(lower@).take(i as int).push(
                lower@[i as int]@,
            ));
        }
        i += 1;
    }
    proof {
        assert(strings_view(lower@).take(lower.len() as int) =~= strings_view(lower@));
    }
    SessionConfig {
        session_id,
        created_at,
        mount_point,
        overlay_lower: string_of(&joined),
        overlay_upper: upper,
        overlay_work: work,
        upper_is_tmpfs: use_tmpfs,
        upper_is_zram: use_zram,
        specs,
        toolchain_dirs: dirs,
        pid: None,
    }
}

/// How a session's upper layer is backed: `zram`, `tmpfs(<size>)` (4G
/// unless given), or `disk`.
pub fn backing_description(use_zram: bool, use_tmpfs: bool, size: Option<&str>) -> (r: String)
    ensures
        r@ == if use_zram {
            "zram"@
        } else if use_tmpfs {
            "tmpfs("@ + match size {
                Some(s) => s@,
                None => "4G"@,
            } + ")"@
        } else {
            "disk"@
        },
{
    if use_zram {
        String::from_str("zram")
    } else if use_tmpfs {
        let mut out: Vec<char> = Vec::new();
        push_str(&mut out, "tmpfs(");
        match size {
            Some(s) => push_str(&mut out, s),
            None => push_str(&mut out, "4G"),
        }
        push_str(&mut out, ")");
        string_of(&out)
    } else {
        String::from_str("disk")
    }
}

/// A command's captured output: its stdout, then its stderr, separated by
/// a line break when both are non-empty.
pub open spec fn combined_spec(stdout: Seq<char>, stderr: Seq<char>) -> Seq<char> {
    if stderr.len() == 0 {
        stdout
    } else if stdout.len() == 0 {
        stderr
    } else {
        stdout + seq!['\n'] + stderr
    }
}

pub fn combine_output(stdout: &str, stderr: &str) -> (r: String)
    ensures
        r@ == combined_spec(stdout@, stderr@),
{
    let mut out: Vec<char> = Vec::new();
    if !stdout.is_empty() {
        push_str(&mut out, stdout);
    }
    if !stderr.is_empty() {
        if out.len() > 0 {
            out.push('\n');
        }
        push_str(&mut out, stderr);
    }
    proof {
        assert(out@ =~= combined_spec(stdout@, stderr@));
    }
    string_of(&out)
}

/// The decimal text of a signed number.
pub open spec fn int_text(i: int) -> Seq<char> {
    if i < 0 {
        seq!['-'] + dec((-i) as nat)
    } else {
        dec(i as nat)
    }
}

/// The error of a session command that failed: its exit code (`-1` when
/// killed by a signal) and its combined output.
pub fn exec_failure_message(code: Option<i32>, output: &str) -> (r: String)
    ensures
        r@ == "Command exited with status "@ + int_text(
            match code {
                Some(c) => c as int,
                None => -1,
            },
        ) + ":\n"@ + output@,
{
    let c: i64 = match code {
        Some(c) => c as i64,
        None => -1,
    };
    let mut out: Vec<char> = Vec::new();
    push_str(&mut out, "Command exited with status ");
    if c < 0 {
        out.push('-');
        push_dec(&mut out, (-c) as u64);
    } else {
        push_dec(&mut out, c as u64);
    }
    push_str(&mut out, ":\n");
    push_str(&mut out, output);
    string_of(&out)
}

/// What `session stop` reports.
pub fn stop_message(session_id: &str, purge: bool, upper: &str) -> (r: String)
    ensures
        r@ == if purge {
            "Session '"@ + session_id@ + "' stopped and purged"@
        } else {
            "Session '"@ + session_id@ + "' stopped (upper dir preserved at "@ + upper@ + ")"@
        },
{
    let mut out: Vec<char> = Vec::new();
    push_str(&mut out, "Session '");
    push_str(&mut out, session_id);
    if purge {
        push_str(&mut out, "' stopped and purged");
    } else {
        push_str(&mut out, "' stopped (upper dir preserved at ");
        push_str(&mut out, upper);
        push_str(&mut out, ")");
    }
    string_of(&out)
}

/// Why `session exec` refuses to run: no command, or the session's overlay
/// is not mounted any more.
pub fn exec_precondition(command_empty: bool, mounted: bool, session_id: &str, mount_point: &str) -> (r:
    Option<String>)
    ensures
        command_empty ==> (r matches Some(m) && m@ == "No command specified for session exec"@),
        !command_empty && !mounted ==> (r matches Some(m) && m@ == "Session "@ + session_id@
            + " overlay is not mounted at "@ + mount_point@),
        !command_empty && mounted ==> r is None,
{
    if command_empty {
        return Some(String::from_str("No command specified for session exec"));
    }
    if !mounted {
        let mut out: Vec<char> = Vec::new();
        push_str(&mut out, "Session ");
        push_str(&mut out, session_id);
        push_str(&mut out, " overlay is not mounted at ");
        push_str(&mut out, mount_point);
        return Some(string_of(&out));
    }
    None
}

// ── Listing ──────────────────────────────────────────────────────────

/// `a < b` as Rust orders strings: lexicographically by character.
pub open spec fn text_lt(a: Seq<char>, b: Seq<char>) -> bool
    decreases a.len(),
{
    if a.len() == 0 {
        b.len() > 0
    } else if b.len() == 0 {
        false
    } else if a[0] != b[0] {
        a[0] < b[0]
    } else {
        text_lt(a.drop_first(), b.drop_first())
    }
}

/// `text_lt` is asymmetric and total.
pub proof fn lemma_text_lt_total(a: Seq<char>, b: Seq<char>)
    ensures
        !(text_lt(a, b) && text_lt(b, a)),
        a != b ==> text_lt(a, b) || text_lt(b, a),
    decreases a.len(),
{
    if a.len() == 0 && b.len() == 0 {
        assert(a =~= b);
    }
    if a.len() > 0 && b.len() > 0 && a[0] == b[0] {
        lemma_text_lt_total(a.drop_first(), b.drop_first());
        if a != b {
            assert(a.drop_first() != b.drop_first()) by {
                if a.drop_first() == b.drop_first() {
                    assert(a =~= seq![a[0]] + a.drop_first());
                    assert(b =~= seq![b[0]] + b.drop_first());
                }
            }
        }
    }
}

/// `text_lt` is transitive.
pub proof fn lemma_text_lt_trans(a: Seq<char>, b: Seq<char>, c: Seq<char>)
    requires
        text_lt(a, b),
        text_lt(b, c),
    ensures
        text_lt(a, c),
    decreases a.len(),
{
    if a.len() > 0 && b.len() > 0 && c.len() > 0 && a[0] == b[0] && b[0] == c[0] {
        lemma_text_lt_trans(a.drop_first(), b.drop_first(), c.drop_first());
    }
}

fn text_lt_exec(a: &str, b: &str) -> (r: bool)
    ensures
        r == text_lt(a@, b@),
{
    let x = chars_of(a);
    let y = chars_of(b);
    let mut i: usize = 0;
    proof {
        assert(a@.skip(0) =~= a@);
        assert(b@.skip(0) =~= b@);
    }
    while i < x.len() && i < y.len() && x[i] == y[i]
        invariant
            i <= x.len(),
            i <= y.len(),
            x@ == a@,
            y@ == b@,
            text_lt(a@, b@) == text_lt(a@.skip(i as int), b@.skip(i as int)),
        decreases x.len() - i,
    {
        proof {
            assert(a@.skip(i as int).drop_first() =~= a@.skip(i + 1));
            assert(b@.skip(i as int).drop_first() =~= b@.skip(i + 1));
            assert(a@.skip(i as int)[0] == x@[i as int]);
            assert(b@.skip(i as int)[0] == y@[i as int]);
        }
        i += 1;
    }
    proof {
        if i < x.len() {
            assert(a@.skip(i as int)[0] == x@[i as int]);
        }
        if i < y.len() {
            assert(b@.skip(i as int)[0] == y@[i as int]);
        }
    }
    if i == x.len() {
        i < y.len()
    } else if i == y.len() {
        false
    } else {
        x[i] < y[i]
    }
}

pub open spec fn created(s: SessionConfig) -> Seq<char> {
    s.created_at@
}

/// Newest first: no session comes before one created later.
pub open spec fn newest_sessions_first(s: Seq<SessionConfig>) -> bool {
    forall|i: int, j: int|
        0 <= i < j < s.len() ==> !text_lt(created(#[trigger] s[i]), created(#[trigger] s[j]))
}

proof fn lemma_insert_keeps_order(before: Seq<SessionConfig>, p: int, x: SessionConfig)
    requires
        newest_sessions_first(before),
        0 <= p <= before.len(),
        forall|k: int| 0 <= k < p ==> !text_lt(created(#[trigger] before[k]), created(x)),
        p < before.len() ==> text_lt(created(before[p]), created(x)),
    ensures
        newest_sessions_first(before.insert(p, x)),
{
    let out = before.insert(p, x);
    assert forall|a: int, b: int| 0 <= a < b < out.len() implies !text_lt(
        created(#[trigger] out[a]),
        created(#[trigger] out[b]),
    ) by {
        if b < p {
            assert(out[a] == before[a] && out[b] == before[b]);
        } else if b == p {
            assert(out[a] == before[a] && out[b] == x);
        } else if a < p {
            assert(out[a] == before[a] && out[b] == before[b - 1]);
        } else if a == p {
            assert(out[a] == x && out[b] == before[b - 1]);
            let q = created(before[p]);
            let z = created(before[b - 1]);
            lemma_text_lt_total(created(x), q);
            lemma_text_lt_total(z, q);
            if text_lt(created(x), z) {
                if b - 1 > p {
                    assert(!text_lt(q, z));
                    if z != q {
                        lemma_text_lt_trans(created(x), z, q);
                    }
                }
            }
        } else {
            assert(out[a] == before[a - 1] && out[b] == before[b - 1]);
        }
    }
}

proof fn lemma_insert_multiset(before: Seq<SessionConfig>, p: int, x: SessionConfig)
    requires
        0 <= p <= before.len(),
    ensures
        before.insert(p, x).to_multiset() == before.to_multiset().insert(x),
{
    broadcast use vstd::multiset::group_multiset_axioms;
    let l = before.take(p);
    let r = before.skip(p);
    assert(before.insert(p, x) =~= l + seq![x] + r);
    assert(l + r =~= before);
    vstd::seq_lib::lemma_multiset_commutative(l, seq![x]);
    vstd::seq_lib::lemma_multiset_commutative(l + seq![x], r);
    vstd::seq_lib::lemma_multiset_commutative(l, r);
    assert(seq![x] =~= Seq::<SessionConfig>::empty().push(x));
    vstd::seq_lib::to_multiset_build(Seq::<SessionConfig>::empty(), x);
    assert(Seq::<SessionConfig>::empty().to_multiset() =~= vstd::multiset::Multiset::empty()) by {
        broadcast use vstd::seq_lib::group_to_multiset_ensures;
    }
    assert(before.insert(p, x).to_multiset() =~= before.to_multiset().insert(x));
}

/// Where a newest-first list takes `x`: before the first session created
/// earlier than `x`, so after every one created at the same time.
pub open spec fn insert_pos(out: Seq<SessionConfig>, x: SessionConfig) -> int {
    first_where(out, |e: SessionConfig| text_lt(created(e), created(x)))
}

/// The sessions of `s` put one by one into a newest-first list: a stable
/// sort, which keeps sessions created at the same time in their order.
pub open spec fn sorted_sessions(s: Seq<SessionConfig>) -> Seq<SessionConfig>
    decreases s.len(),
{
    if s.len() == 0 {
        seq![]
    } else {
        let o = sorted_sessions(s.drop_last());
        o.insert(insert_pos(o, s.last()), s.last())
    }
}

/// Sessions ordered newest first by creation time (the `created_at`
/// text, compared as strings), keeping every session, and keeping
/// sessions created at the same time in their order.
pub fn sessions_newest_first(sessions: Vec<SessionConfig>) -> (r: Vec<SessionConfig>)
    ensures
        r@ == sorted_sessions(sessions@),
        r@.to_multiset() == sessions@.to_multiset(),
        newest_sessions_first(r@),
{
    let ghost all = sessions@;
    let mut rest = sessions;
    let mut out: Vec<SessionConfig> = Vec::new();
    let n = rest.len();
    let mut i: usize = 0;
    proof {
        assert(all.take(0) =~= seq![]);
        assert(all.skip(0) =~= all);
        assert(out@ =~= seq![]);
    }
    while i < n
        invariant
            i <= n,
            n == all.len(),
            rest@ == all.skip(i as int),
            out@ == sorted_sessions(all.take(i as int)),
            out@.to_multiset() == all.take(i as int).to_multiset(),
            newest_sessions_first(out@),
        decreases n - i,
    {
        let x = rest.remove(0);
        proof {
            assert(x == all[i as int]);
            assert(all.skip(i as int).drop_first() =~= all.skip(i + 1));
        }
        let mut p: usize = 0;
        while p < out.len() && !text_lt_exec(out[p].created_at.as_str(), x.created_at.as_str())
            invariant
                p <= out.len(),
                forall|k: int| 0 <= k < p ==> !text_lt(created(#[trigger] out@[k]), created(x)),
            decreases out.len() - p,
        {
            p += 1;
        }
        let ghost before = out@;
        let ghost xv = x;
        proof {
            let pr = |e: SessionConfig| text_lt(created(e), created(xv));
            if p < before.len() {
                assert(pr(before[p as int]));
            }
            lemma_first_where(before, pr, p as int);
            assert(all.take(i + 1).drop_last() =~= all.take(i as int));
            assert(all.take(i + 1).last() == xv);
        }
        out.insert(p, x);
        proof {
            lemma_insert_keeps_order(before, p as int, xv);
            lemma_insert_multiset(before, p as int, xv);
            assert(all.take(i + 1) =~= all.take(i as int).push(xv));
            vstd::seq_lib::to_multiset_build(all.take(i as int), xv);
        }
        i += 1;
    }
    proof {
        assert(all.take(n as int) =~= all);
    }
    out
}

} // verus!
