//! Process isolation for `run`/`shell`/`build`: the argument lists that run
//! a command under `bwrap` (bubblewrap) or, where that is missing, under
//! `proot`, and the choice between them. A sandbox starts from nothing:
//! only what the profile grants is visible inside it.
use vstd::prelude::*;

use crate::keyed::{clone_string_map, KeyedMap};
use crate::text::{push_str, str_eq, string_of};

verus! {

broadcast use vstd::string::group_string_axioms;

/// What a sandboxed command gets to see and touch.
#[derive(Debug, Clone)]
pub struct SandboxProfile {
    /// Read-write bind for the project/build directory, if the command
    /// needs to write there.
    pub project_dir: Option<String>,
    /// Read-only binds beyond the base OS directories (each resolved
    /// installation's path).
    pub extra_ro_binds: Vec<String>,
    /// Whether the sandbox shares the host's network.
    pub allow_network: bool,
}

pub struct SandboxProfileV {
    pub project_dir: Option<Seq<char>>,
    pub extra_ro_binds: Seq<Seq<char>>,
    pub allow_network: bool,
}

pub open spec fn strings_view(v: Seq<String>) -> Seq<Seq<char>> {
    v.map_values(|s: String| s@)
}

impl View for SandboxProfile {
    type V = SandboxProfileV;

    open spec fn view(&self) -> SandboxProfileV {
        SandboxProfileV {
            project_dir: match self.project_dir {
                Some(d) => Some(d@),
                None => None,
            },
            extra_ro_binds: strings_view(self.extra_ro_binds@),
            allow_network: self.allow_network,
        }
    }
}

impl Default for SandboxProfile {
    /// Nothing granted: no project directory, no extra binds, no network.
    fn default() -> (r: Self)
        ensures
            r.project_dir is None,
            r.extra_ro_binds@.len() == 0,
            !r.allow_network,
    {
        SandboxProfile { project_dir: None, extra_ro_binds: Vec::new(), allow_network: false }
    }
}

/// Host directories bound read-only into every sandbox, when they exist.
pub open spec fn base_ro_dirs() -> Seq<Seq<char>> {
    seq!["/usr"@, "/bin"@, "/sbin"@, "/lib"@, "/lib64"@]
}

/// DNS/TLS configuration, bound read-only (when it exists) only for a
/// sandbox with network access.
pub open spec fn network_ro_files() -> Seq<Seq<char>> {
    seq!["/etc/resolv.conf"@, "/etc/hosts"@, "/etc/nsswitch.conf"@, "/etc/ssl"@, "/etc/ca-certificates"@]
}

/// The host paths whose existence decides what `build_bwrap_args` binds:
/// the base directories, then the network files.
pub fn host_paths_to_probe() -> (r: Vec<String>)
    ensures
        strings_view(r@) == base_ro_dirs() + network_ro_files(),
{
    let mut v: Vec<String> = Vec::new();
    v.push(String::from_str("/usr"));
    v.push(String::from_str("/bin"));
    v.push(String::from_str("/sbin"));
    v.push(String::from_str("/lib"));
    v.push(String::from_str("/lib64"));
    v.push(String::from_str("/etc/resolv.conf"));
    v.push(String::from_str("/etc/hosts"));
    v.push(String::from_str("/etc/nsswitch.conf"));
    v.push(String::from_str("/etc/ssl"));
    v.push(String::from_str("/etc/ca-certificates"));
    proof {
        assert(strings_view(v@) =~= base_ro_dirs() + network_ro_files());
    }
    v
}

/// `--ro-bind p p` for each path of `paths`, in order.
pub open spec fn ro_binds(paths: Seq<Seq<char>>) -> Seq<Seq<char>>
    decreases paths.len(),
{
    if paths.len() == 0 {
        seq![]
    } else {
        ro_binds(paths.drop_last()) + seq!["--ro-bind"@, paths.last(), paths.last()]
    }
}

/// The paths of `paths` that `existing` holds, in order.
pub open spec fn present(paths: Seq<Seq<char>>, existing: Seq<Seq<char>>) -> Seq<Seq<char>>
    decreases paths.len(),
{
    if paths.len() == 0 {
        seq![]
    } else {
        let p = present(paths.drop_last(), existing);
        if existing.contains(paths.last()) {
            p.push(paths.last())
        } else {
            p
        }
    }
}

/// The `bwrap` arguments that run `program args` in `cwd` under `profile`;
/// `existing` lists the host paths that exist.
pub open spec fn bwrap_args_spec(
    program: Seq<char>,
    args: Seq<Seq<char>>,
    cwd: Seq<char>,
    profile: SandboxProfileV,
    existing: Seq<Seq<char>>,
) -> Seq<Seq<char>> {
    ro_binds(present(base_ro_dirs(), existing)) + (if profile.allow_network {
        ro_binds(present(network_ro_files(), existing))
    } else {
        seq![]
    }) + seq!["--proc"@, "/proc"@, "--dev"@, "/dev"@, "--tmpfs"@, "/tmp"@, "--unshare-pid"@]
        + (if profile.allow_network {
        seq![]
    } else {
        seq!["--unshare-net"@]
    }) + ro_binds(profile.extra_ro_binds) + match profile.project_dir {
        Some(d) => seq!["--bind"@, d, d],
        None => seq![],
    } + seq!["--chdir"@, cwd, "--"@, program] + args
}

/// `-b p:p` for each path of `paths`, in order.
pub open spec fn proot_binds(paths: Seq<Seq<char>>) -> Seq<Seq<char>>
    decreases paths.len(),
{
    if paths.len() == 0 {
        seq![]
    } else {
        proot_binds(paths.drop_last()) + seq![
            "-b"@,
            paths.last() + seq![':'] + paths.last(),
        ]
    }
}

/// The `proot` arguments that run `program args` in `cwd` under `profile`.
pub open spec fn proot_args_spec(
    program: Seq<char>,
    args: Seq<Seq<char>>,
    cwd: Seq<char>,
    profile: SandboxProfileV,
) -> Seq<Seq<char>> {
    seq!["-0"@, "--kill-on-exit"@] + match profile.project_dir {
        Some(d) => seq!["-b"@, d + seq![':'] + d],
        None => seq![],
    } + proot_binds(profile.extra_ro_binds) + seq!["-w"@, cwd, "--"@, program] + args
}

fn push_lit(out: &mut Vec<String>, s: &str)
    ensures
        strings_view(final(out)@) == strings_view(old(out)@).push(s@),
{
    out.push(String::from_str(s));
    proof {
        assert(strings_view(final(out)@) =~= strings_view(old(out)@).push(s@));
    }
}

fn push_string(out: &mut Vec<String>, s: &String)
    ensures
        strings_view(final(out)@) == strings_view(old(out)@).push(s@),
{
    out.push(s.clone());
    proof {
        assert(strings_view(final(out)@) =~= strings_view(old(out)@).push(s@));
    }
}

fn push_all(out: &mut Vec<String>, items: &Vec<String>)
    ensures
        strings_view(final(out)@) == strings_view(old(out)@) + strings_view(items@),
{
    let ghost start = strings_view(out@);
    let mut i: usize = 0;
    while i < items.len()
        invariant
            i <= items.len(),
            strings_view(out@) == start + strings_view(items@).take(i as int),
        decreases items.len() - i,
    {
        push_string(out, &items[i]);
        proof {
            assert(strings_view(items@).take(i + 1) =~= strings_view(items@).take(i as int).push(
                items@[i as int]@,
            ));
        }
        i += 1;
    }
    proof {
        assert(strings_view(items@).take(items.len() as int) =~= strings_view(items@));
    }
}

fn contains_str(list: &Vec<String>, s: &str) -> (r: bool)
    ensures
        r == strings_view(list@).contains(s@),
{
    let mut i: usize = 0;
    while i < list.len()
        invariant
            i <= list.len(),
            forall|j: int| 0 <= j < i ==> list@[j]@ != s@,
        decreases list.len() - i,
    {
        if str_eq(list[i].as_str(), s) {
            proof {
                assert(strings_view(list@)[i as int] == s@);
            }
            return true;
        }
        i += 1;
    }
    proof {
        if strings_view(list@).contains(s@) {
            let k = choose|k: int| 0 <= k < strings_view(list@).len() && strings_view(list@)[k] == s@;
            assert(list@[k]@ == s@);
        }
    }
    false
}

/// Append `--ro-bind p p` for each of `paths` that `existing` holds.
fn push_present_ro_binds(out: &mut Vec<String>, paths: &Vec<String>, existing: &Vec<String>)
    ensures
        strings_view(final(out)@) == strings_view(old(out)@) + ro_binds(
            present(strings_view(paths@), strings_view(existing@)),
        ),
{
    let ghost start = strings_view(out@);
    let ghost ps = strings_view(paths@);
    let ghost ex = strings_view(existing@);
    let mut i: usize = 0;
    proof {
        assert(present(ps.take(0), ex) =~= seq![]);
    }
    while i < paths.len()
        invariant
            i <= paths.len(),
            ps == strings_view(paths@),
            ex == strings_view(existing@),
            strings_view(out@) == start + ro_binds(present(ps.take(i as int), ex)),
        decreases paths.len() - i,
    {
        let ghost before = strings_view(out@);
        proof {
            assert(ps.take(i + 1).drop_last() =~= ps.take(i as int));
            assert(ps.take(i + 1).last() == paths@[i as int]@);
        }
        if contains_str(existing, paths[i].as_str()) {
            push_lit(out, "--ro-bind");
            push_string(out, &paths[i]);
            push_string(out, &paths[i]);
            proof {
                let q = present(ps.take(i + 1), ex);
                assert(q == present(ps.take(i as int), ex).push(paths@[i as int]@));
                assert(q.drop_last() =~= present(ps.take(i as int), ex));
                assert(strings_view(out@) =~= start + ro_binds(q));
            }
        } else {
            proof {
                assert(present(ps.take(i + 1), ex) == present(ps.take(i as int), ex));
            }
        }
        i += 1;
    }
    proof {
        assert(ps.take(paths.len() as int) =~= ps);
    }
}

fn push_ro_binds(out: &mut Vec<String>, paths: &Vec<String>)
    ensures
        strings_view(final(out)@) == strings_view(old(out)@) + ro_binds(strings_view(paths@)),
{
    let ghost start = strings_view(out@);
    let ghost ps = strings_view(paths@);
    let mut i: usize = 0;
    proof {
        assert(ro_binds(ps.take(0)) =~= seq![]);
    }
    while i < paths.len()
        invariant
            i <= paths.len(),
            ps == strings_view(paths@),
            strings_view(out@) == start + ro_binds(ps.take(i as int)),
        decreases paths.len() - i,
    {
        proof {
            assert(ps.take(i + 1).drop_last() =~= ps.take(i as int));
            assert(ps.take(i + 1).last() == paths@[i as int]@);
        }
        push_lit(out, "--ro-bind");
        push_string(out, &paths[i]);
        push_string(out, &paths[i]);
        proof {
            assert(strings_view(out@) =~= start + ro_binds(ps.take(i + 1)));
        }
        i += 1;
    }
    proof {
        assert(ps.take(paths.len() as int) =~= ps);
    }
}

fn base_dirs_list() -> (r: Vec<String>)
    ensures
        strings_view(r@) == base_ro_dirs(),
{
    let mut v: Vec<String> = Vec::new();
    push_lit(&mut v, "/usr");
    push_lit(&mut v, "/bin");
    push_lit(&mut v, "/sbin");
    push_lit(&mut v, "/lib");
    push_lit(&mut v, "/lib64");
    proof {
        assert(strings_view(v@) =~= base_ro_dirs());
    }
    v
}

fn network_files_list() -> (r: Vec<String>)
    ensures
        strings_view(r@) == network_ro_files(),
{
    let mut v: Vec<String> = Vec::new();
    push_lit(&mut v, "/etc/resolv.conf");
    push_lit(&mut v, "/etc/hosts");
    push_lit(&mut v, "/etc/nsswitch.conf");
    push_lit(&mut v, "/etc/ssl");
    push_lit(&mut v, "/etc/ca-certificates");
    proof {
        assert(strings_view(v@) =~= network_ro_files());
    }
    v
}

/// The `bwrap` argument list that runs `program args` in `cwd` with
/// `profile`'s grants: base OS directories (and, with network, DNS/TLS
/// files) read-only where they exist on the host (`existing` lists the
/// host paths that do), fresh `/proc`, `/dev` and `/tmp`, its own PID
/// namespace, its own network namespace unless network is allowed, the
/// installations read-only, the project directory read-write, then the
/// working directory, `--`, and the command.
pub fn build_bwrap_args(
    program: &str,
    args: &Vec<String>,
    cwd: &str,
    profile: &SandboxProfile,
    existing: &Vec<String>,
) -> (r: Vec<String>)
    ensures
        strings_view(r@) == bwrap_args_spec(
            program@,
            strings_view(args@),
            cwd@,
            profile@,
            strings_view(existing@),
        ),
{
    let mut a: Vec<String> = Vec::new();
    let base = base_dirs_list();
    push_present_ro_binds(&mut a, &base, existing);
    let ghost s1 = strings_view(a@);
    if profile.allow_network {
        let net = network_files_list();
        push_present_ro_binds(&mut a, &net, existing);
    }
    let ghost s2 = strings_view(a@);
    push_lit(&mut a, "--proc");
    push_lit(&mut a, "/proc");
    push_lit(&mut a, "--dev");
    push_lit(&mut a, "/dev");
    push_lit(&mut a, "--tmpfs");
    push_lit(&mut a, "/tmp");
    push_lit(&mut a, "--unshare-pid");
    let ghost s3 = strings_view(a@);
    if !profile.allow_network {
        push_lit(&mut a, "--unshare-net");
    }
    let ghost s4 = strings_view(a@);
    push_ro_binds(&mut a, &profile.extra_ro_binds);
    let ghost s5 = strings_view(a@);
    match &profile.project_dir {
        Some(d) => {
            push_lit(&mut a, "--bind");
            push_string(&mut a, d);
            push_string(&mut a, d);
        },
        None => {},
    }
    let ghost s6 = strings_view(a@);
    push_lit(&mut a, "--chdir");
    push_lit(&mut a, cwd);
    push_lit(&mut a, "--");
    push_lit(&mut a, program);
    let ghost s7 = strings_view(a@);
    push_all(&mut a, args);
    proof {
        let pv = profile@;
        let ex = strings_view(existing@);
        assert(s2 =~= s1 + (if pv.allow_network {
            ro_binds(present(network_ro_files(), ex))
        } else {
            seq![]
        }));
        assert(s3 =~= s2 + seq!["--proc"@, "/proc"@, "--dev"@, "/dev"@, "--tmpfs"@, "/tmp"@, "--unshare-pid"@]);
        assert(s4 =~= s3 + (if pv.allow_network {
            seq![]
        } else {
            seq!["--unshare-net"@]
        }));
        assert(s6 =~= s5 + match pv.project_dir {
            Some(d) => seq!["--bind"@, d, d],
            None => seq![],
        });
        assert(s7 =~= s6 + seq!["--chdir"@, cwd@, "--"@, program@]);
        assert(strings_view(a@) =~= bwrap_args_spec(program@, strings_view(args@), cwd@, pv, ex));
    }
    a
}

fn colon_pair(s: &String) -> (r: String)
    ensures
        r@ == s@ + seq![':'] + s@,
{
    let mut out: Vec<char> = Vec::new();
    push_str(&mut out, s.as_str());
    out.push(':');
    push_str(&mut out, s.as_str());
    string_of(&out)
}

/// The `proot` argument list that runs `program args` in `cwd` with
/// `profile`'s binds (the project directory, then the installations, each
/// at its own path), then the working directory, `--`, and the command.
/// `proot` isolates neither network nor PIDs.
pub fn build_proot_args(program: &str, args: &Vec<String>, cwd: &str, profile: &SandboxProfile) -> (r:
    Vec<String>)
    ensures
        strings_view(r@) == proot_args_spec(program@, strings_view(args@), cwd@, profile@),
{
    let mut a: Vec<String> = Vec::new();
    push_lit(&mut a, "-0");
    push_lit(&mut a, "--kill-on-exit");
    match &profile.project_dir {
        Some(d) => {
            push_lit(&mut a, "-b");
            let pair = colon_pair(d);
            push_string(&mut a, &pair);
        },
        None => {},
    }
    let ghost s1 = strings_view(a@);
    let ghost ps = strings_view(profile.extra_ro_binds@);
    let mut i: usize = 0;
    proof {
        assert(proot_binds(ps.take(0)) =~= seq![]);
    }
    while i < profile.extra_ro_binds.len()
        invariant
            i <= profile.extra_ro_binds.len(),
            ps == strings_view(profile.extra_ro_binds@),
            strings_view(a@) == s1 + proot_binds(ps.take(i as int)),
        decreases profile.extra_ro_binds.len() - i,
    {
        proof {
            assert(ps.take(i + 1).drop_last() =~= ps.take(i as int));
            assert(ps.take(i + 1).last() == profile.extra_ro_binds@[i as int]@);
        }
        push_lit(&mut a, "-b");
        let pair = colon_pair(&profile.extra_ro_binds[i]);
        push_string(&mut a, &pair);
        proof {
            assert(strings_view(a@) =~= s1 + proot_binds(ps.take(i + 1)));
        }
        i += 1;
    }
    proof {
        assert(ps.take(profile.extra_ro_binds.len() as int) =~= ps);
    }
    let ghost s2 = strings_view(a@);
    push_lit(&mut a, "-w");
    push_lit(&mut a, cwd);
    push_lit(&mut a, "--");
    push_lit(&mut a, program);
    let ghost s3 = strings_view(a@);
    push_all(&mut a, args);
    proof {
        let pv = profile@;
        assert(s1 =~= seq!["-0"@, "--kill-on-exit"@] + match pv.project_dir {
            Some(d) => seq!["-b"@, d + seq![':'] + d],
            None => seq![],
        });
        assert(s3 =~= s2 + seq!["-w"@, cwd@, "--"@, program@]);
        assert(strings_view(a@) =~= proot_args_spec(program@, strings_view(args@), cwd@, pv));
    }
    a
}


// ── Laws ─────────────────────────────────────────────────────────────

/// A concatenation holds exactly what its two parts hold.
pub proof fn lemma_concat_contains<A>(a: Seq<A>, b: Seq<A>, x: A)
    ensures
        (a + b).contains(x) <==> (a.contains(x) || b.contains(x)),
{
    if (a + b).contains(x) {
        let k = choose|k: int| 0 <= k < (a + b).len() && (a + b)[k] == x;
        if k < a.len() {
            assert(a[k] == x);
        } else {
            assert(b[k - a.len()] == x);
        }
    }
    if a.contains(x) {
        let k = choose|k: int| 0 <= k < a.len() && a[k] == x;
        assert((a + b)[k] == x);
    }
    if b.contains(x) {
        let k = choose|k: int| 0 <= k < b.len() && b[k] == x;
        assert((a + b)[a.len() + k] == x);
    }
}

/// Read-only binds hold the flag `--ro-bind` (when there is one) and the
/// bound paths, nothing else.
pub proof fn lemma_ro_binds_contains(ps: Seq<Seq<char>>, x: Seq<char>)
    ensures
        ro_binds(ps).contains(x) <==> ((ps.len() > 0 && x == "--ro-bind"@) || ps.contains(x)),
    decreases ps.len(),
{
    if ps.len() > 0 {
        let t = ps.drop_last();
        lemma_ro_binds_contains(t, x);
        let tail = seq!["--ro-bind"@, ps.last(), ps.last()];
        lemma_concat_contains(ro_binds(t), tail, x);
        assert(tail.contains(x) <==> (x == "--ro-bind"@ || x == ps.last())) by {
            if x == "--ro-bind"@ {
                assert(tail[0] == x);
            }
            if x == ps.last() {
                assert(tail[1] == x);
            }
        }
        assert(ps.contains(x) <==> (t.contains(x) || x == ps.last())) by {
            if ps.contains(x) {
                let k = choose|k: int| 0 <= k < ps.len() && ps[k] == x;
                if k < ps.len() - 1 {
                    assert(t[k] == x);
                }
            }
            if t.contains(x) {
                let k = choose|k: int| 0 <= k < t.len() && t[k] == x;
                assert(ps[k] == x);
            }
            if x == ps.last() {
                assert(ps[ps.len() - 1] == x);
            }
        }
    }
}

/// The present paths are those of the list that exist.
pub proof fn lemma_present_contains(ps: Seq<Seq<char>>, ex: Seq<Seq<char>>, x: Seq<char>)
    ensures
        present(ps, ex).contains(x) <==> (ps.contains(x) && ex.contains(x)),
    decreases ps.len(),
{
    if ps.len() > 0 {
        let t = ps.drop_last();
        lemma_present_contains(t, ex, x);
        let p = present(t, ex);
        assert(ps.contains(x) <==> (t.contains(x) || x == ps.last())) by {
            if ps.contains(x) {
                let k = choose|k: int| 0 <= k < ps.len() && ps[k] == x;
                if k < ps.len() - 1 {
                    assert(t[k] == x);
                }
            }
            if t.contains(x) {
                let k = choose|k: int| 0 <= k < t.len() && t[k] == x;
                assert(ps[k] == x);
            }
            if x == ps.last() {
                assert(ps[ps.len() - 1] == x);
            }
        }
        if ex.contains(ps.last()) {
            lemma_concat_contains(p, seq![ps.last()], x);
            assert(p.push(ps.last()) =~= p + seq![ps.last()]);
            assert(seq![ps.last()].contains(x) <==> x == ps.last()) by {
                if x == ps.last() {
                    assert(seq![ps.last()][0] == x);
                }
            }
        }
    }
}

/// The sandboxed command comes last: after `--`, the program and then its
/// arguments, unchanged.
pub proof fn lemma_bwrap_command_last(
    program: Seq<char>,
    args: Seq<Seq<char>>,
    cwd: Seq<char>,
    profile: SandboxProfileV,
    existing: Seq<Seq<char>>,
)
    ensures
        ({
            let a = bwrap_args_spec(program, args, cwd, profile, existing);
            let n = a.len() - args.len();
            &&& n >= 4
            &&& a[n - 4] == "--chdir"@
            &&& a[n - 3] == cwd
            &&& a[n - 2] == "--"@
            &&& a[n - 1] == program
            &&& a.skip(n) == args
        }),
{
    let a = bwrap_args_spec(program, args, cwd, profile, existing);
    let n = a.len() - args.len();
    assert(a.skip(n) =~= args);
}

/// Every `bwrap` sandbox has its own PID namespace.
pub proof fn lemma_bwrap_pid_unshared(
    program: Seq<char>,
    args: Seq<Seq<char>>,
    cwd: Seq<char>,
    profile: SandboxProfileV,
    existing: Seq<Seq<char>>,
)
    ensures
        bwrap_args_spec(program, args, cwd, profile, existing).contains("--unshare-pid"@),
{
    let a = bwrap_args_spec(program, args, cwd, profile, existing);
    let head = ro_binds(present(base_ro_dirs(), existing)) + (if profile.allow_network {
        ro_binds(present(network_ro_files(), existing))
    } else {
        seq![]
    });
    let k: int = head.len() as int + 6;
    assert(a[k] == "--unshare-pid"@);
}

/// Whether a string supplied with the request (program, arguments, working
/// directory, binds) is `x`.
pub open spec fn supplied(
    program: Seq<char>,
    args: Seq<Seq<char>>,
    cwd: Seq<char>,
    profile: SandboxProfileV,
    x: Seq<char>,
) -> bool {
    ||| program == x
    ||| args.contains(x)
    ||| cwd == x
    ||| profile.extra_ro_binds.contains(x)
    ||| profile.project_dir == Some(x)
}

proof fn lemma_bwrap_contains(
    program: Seq<char>,
    args: Seq<Seq<char>>,
    cwd: Seq<char>,
    profile: SandboxProfileV,
    existing: Seq<Seq<char>>,
    x: Seq<char>,
)
    ensures
        bwrap_args_spec(program, args, cwd, profile, existing).contains(x) <==> {
            ||| present(base_ro_dirs(), existing).contains(x)
            ||| (profile.allow_network && present(network_ro_files(), existing).contains(x))
            ||| (x == "--ro-bind"@ && (present(base_ro_dirs(), existing).len() > 0 || (
            profile.allow_network && present(network_ro_files(), existing).len() > 0)
                || profile.extra_ro_binds.len() > 0))
            ||| seq!["--proc"@, "/proc"@, "--dev"@, "/dev"@, "--tmpfs"@, "/tmp"@, "--unshare-pid"@].contains(x)
            ||| (!profile.allow_network && x == "--unshare-net"@)
            ||| (profile.project_dir is Some && x == "--bind"@)
            ||| x == "--chdir"@
            ||| x == "--"@
            ||| supplied(program, args, cwd, profile, x)
        },
{
    let pb = present(base_ro_dirs(), existing);
    let pn = present(network_ro_files(), existing);
    let s1 = ro_binds(pb);
    let s2 = if profile.allow_network {
        ro_binds(pn)
    } else {
        seq![]
    };
    let s3 = seq!["--proc"@, "/proc"@, "--dev"@, "/dev"@, "--tmpfs"@, "/tmp"@, "--unshare-pid"@];
    let s4 = if profile.allow_network {
        seq![]
    } else {
        seq!["--unshare-net"@]
    };
    let s5 = ro_binds(profile.extra_ro_binds);
    let s6 = match profile.project_dir {
        Some(d) => seq!["--bind"@, d, d],
        None => seq![],
    };
    let s7 = seq!["--chdir"@, cwd, "--"@, program];
    lemma_ro_binds_contains(pb, x);
    lemma_ro_binds_contains(pn, x);
    lemma_ro_binds_contains(profile.extra_ro_binds, x);
    lemma_concat_contains(s1, s2, x);
    lemma_concat_contains(s1 + s2, s3, x);
    lemma_concat_contains(s1 + s2 + s3, s4, x);
    lemma_concat_contains(s1 + s2 + s3 + s4, s5, x);
    lemma_concat_contains(s1 + s2 + s3 + s4 + s5, s6, x);
    lemma_concat_contains(s1 + s2 + s3 + s4 + s5 + s6, s7, x);
    lemma_concat_contains(s1 + s2 + s3 + s4 + s5 + s6 + s7, args, x);
    assert(!profile.allow_network ==> !s2.contains(x));
    assert(profile.allow_network ==> !s4.contains(x));
    assert(s4.contains(x) <==> (!profile.allow_network && x == "--unshare-net"@)) by {
        if !profile.allow_network && x == "--unshare-net"@ {
            assert(s4[0] == x);
        }
    }
    assert(s6.contains(x) <==> (profile.project_dir is Some && (x == "--bind"@
        || profile.project_dir == Some(x)))) by {
        if profile.project_dir is Some {
            if x == "--bind"@ {
                assert(s6[0] == x);
            }
            if profile.project_dir == Some(x) {
                assert(s6[1] == x);
            }
        }
    }
    assert(s7.contains(x) <==> (x == "--chdir"@ || x == cwd || x == "--"@ || x == program)) by {
        if x == "--chdir"@ {
            assert(s7[0] == x);
        }
        if x == cwd {
            assert(s7[1] == x);
        }
        if x == "--"@ {
            assert(s7[2] == x);
        }
        if x == program {
            assert(s7[3] == x);
        }
    }
    assert(bwrap_args_spec(program, args, cwd, profile, existing) == s1 + s2 + s3 + s4 + s5 + s6
        + s7 + args);
}

/// A sandbox without network access gets its own network namespace; one
/// with network access does not (unless a supplied string is literally
/// `--unshare-net`).
pub proof fn lemma_bwrap_network_namespace(
    program: Seq<char>,
    args: Seq<Seq<char>>,
    cwd: Seq<char>,
    profile: SandboxProfileV,
    existing: Seq<Seq<char>>,
)
    ensures
        !profile.allow_network ==> bwrap_args_spec(program, args, cwd, profile, existing).contains(
            "--unshare-net"@,
        ),
        profile.allow_network && !supplied(program, args, cwd, profile, "--unshare-net"@)
            ==> !bwrap_args_spec(program, args, cwd, profile, existing).contains("--unshare-net"@),
{
    let x = "--unshare-net"@;
    lemma_bwrap_contains(program, args, cwd, profile, existing, x);
    lemma_present_contains(base_ro_dirs(), existing, x);
    lemma_present_contains(network_ro_files(), existing, x);
    reveal_strlit("--unshare-net");
    reveal_strlit("--ro-bind");
    reveal_strlit("--bind");
    reveal_strlit("--chdir");
    reveal_strlit("--");
    reveal_strlit("--proc");
    reveal_strlit("/proc");
    reveal_strlit("--dev");
    reveal_strlit("/dev");
    reveal_strlit("--tmpfs");
    reveal_strlit("/tmp");
    reveal_strlit("--unshare-pid");
    reveal_strlit("/usr");
    reveal_strlit("/bin");
    reveal_strlit("/sbin");
    reveal_strlit("/lib");
    reveal_strlit("/lib64");
    reveal_strlit("/etc/resolv.conf");
    reveal_strlit("/etc/hosts");
    reveal_strlit("/etc/nsswitch.conf");
    reveal_strlit("/etc/ssl");
    reveal_strlit("/etc/ca-certificates");
    let fixed = seq!["--proc"@, "/proc"@, "--dev"@, "/dev"@, "--tmpfs"@, "/tmp"@, "--unshare-pid"@];
    assert(!fixed.contains(x)) by {
        if fixed.contains(x) {
            let k = choose|k: int| 0 <= k < fixed.len() && fixed[k] == x;
            if k == 6 {
                assert(fixed[6][10] != x[10]);
            } else {
                assert(fixed[k].len() != x.len());
            }
        }
    }
    assert(!base_ro_dirs().contains(x)) by {
        if base_ro_dirs().contains(x) {
            let k = choose|k: int| 0 <= k < base_ro_dirs().len() && base_ro_dirs()[k] == x;
            assert(base_ro_dirs()[k][1] != x[1]);
        }
    }
    assert(!network_ro_files().contains(x)) by {
        if network_ro_files().contains(x) {
            let k = choose|k: int| 0 <= k < network_ro_files().len() && network_ro_files()[k] == x;
            assert(network_ro_files()[k][1] != x[1]);
        }
    }
    assert(x != "--ro-bind"@ && x != "--bind"@ && x != "--chdir"@ && x != "--"@) by {
        assert(x.len() != "--ro-bind"@.len());
        assert(x.len() != "--bind"@.len());
        assert(x.len() != "--chdir"@.len());
        assert(x.len() != "--"@.len());
    }
}

/// Host DNS/TLS files are bound only into sandboxes with network access
/// (unless a supplied string names one of them); with network access,
/// each one that exists is bound, and one that does not exist is never
/// bound (unless a supplied string names it).
pub proof fn lemma_bwrap_network_files(
    program: Seq<char>,
    args: Seq<Seq<char>>,
    cwd: Seq<char>,
    profile: SandboxProfileV,
    existing: Seq<Seq<char>>,
    f: Seq<char>,
)
    requires
        network_ro_files().contains(f),
    ensures
        profile.allow_network && existing.contains(f) ==> bwrap_args_spec(
            program,
            args,
            cwd,
            profile,
            existing,
        ).contains(f),
        !profile.allow_network && !supplied(program, args, cwd, profile, f) ==> !bwrap_args_spec(
            program,
            args,
            cwd,
            profile,
            existing,
        ).contains(f),
        !existing.contains(f) && !supplied(program, args, cwd, profile, f) ==> !bwrap_args_spec(
            program,
            args,
            cwd,
            profile,
            existing,
        ).contains(f),
{
    lemma_bwrap_contains(program, args, cwd, profile, existing, f);
    lemma_present_contains(base_ro_dirs(), existing, f);
    lemma_present_contains(network_ro_files(), existing, f);
    reveal_strlit("--unshare-net");
    reveal_strlit("--ro-bind");
    reveal_strlit("--bind");
    reveal_strlit("--chdir");
    reveal_strlit("--");
    reveal_strlit("--proc");
    reveal_strlit("/proc");
    reveal_strlit("--dev");
    reveal_strlit("/dev");
    reveal_strlit("--tmpfs");
    reveal_strlit("/tmp");
    reveal_strlit("--unshare-pid");
    reveal_strlit("/usr");
    reveal_strlit("/bin");
    reveal_strlit("/sbin");
    reveal_strlit("/lib");
    reveal_strlit("/lib64");
    reveal_strlit("/etc/resolv.conf");
    reveal_strlit("/etc/hosts");
    reveal_strlit("/etc/nsswitch.conf");
    reveal_strlit("/etc/ssl");
    reveal_strlit("/etc/ca-certificates");
    let k = choose|k: int| 0 <= k < network_ro_files().len() && network_ro_files()[k] == f;
    assert(f[0] == '/' && f[1] == 'e');
    let fixed = seq!["--proc"@, "/proc"@, "--dev"@, "/dev"@, "--tmpfs"@, "/tmp"@, "--unshare-pid"@];
    assert(!fixed.contains(f)) by {
        if fixed.contains(f) {
            let j = choose|j: int| 0 <= j < fixed.len() && fixed[j] == f;
            assert(fixed[j][1] != f[1]);
        }
    }
    assert(!base_ro_dirs().contains(f)) by {
        if base_ro_dirs().contains(f) {
            let j = choose|j: int| 0 <= j < base_ro_dirs().len() && base_ro_dirs()[j] == f;
            assert(base_ro_dirs()[j][1] != f[1]);
        }
    }
    assert(f != "--ro-bind"@ && f != "--unshare-net"@ && f != "--bind"@ && f != "--chdir"@ && f
        != "--"@) by {
        assert("--ro-bind"@[0] != f[0]);
        assert("--unshare-net"@[0] != f[0]);
        assert("--bind"@[0] != f[0]);
        assert("--chdir"@[0] != f[0]);
        assert("--"@[0] != f[0]);
    }
}

/// Every base directory (`/usr`, `/bin`, ...) that exists on the host is
/// bound into a `bwrap` sandbox, and one that does not exist is never
/// bound (unless a supplied string names it).
pub proof fn lemma_bwrap_base_dirs(
    program: Seq<char>,
    args: Seq<Seq<char>>,
    cwd: Seq<char>,
    profile: SandboxProfileV,
    existing: Seq<Seq<char>>,
    f: Seq<char>,
)
    requires
        base_ro_dirs().contains(f),
    ensures
        existing.contains(f) ==> bwrap_args_spec(program, args, cwd, profile, existing).contains(f),
        !existing.contains(f) && !supplied(program, args, cwd, profile, f) ==> !bwrap_args_spec(
            program,
            args,
            cwd,
            profile,
            existing,
        ).contains(f),
{
    lemma_bwrap_contains(program, args, cwd, profile, existing, f);
    lemma_present_contains(base_ro_dirs(), existing, f);
    lemma_present_contains(network_ro_files(), existing, f);
    reveal_strlit("--unshare-net");
    reveal_strlit("--ro-bind");
    reveal_strlit("--bind");
    reveal_strlit("--chdir");
    reveal_strlit("--");
    reveal_strlit("--proc");
    reveal_strlit("/proc");
    reveal_strlit("--dev");
    reveal_strlit("/dev");
    reveal_strlit("--tmpfs");
    reveal_strlit("/tmp");
    reveal_strlit("--unshare-pid");
    reveal_strlit("/usr");
    reveal_strlit("/bin");
    reveal_strlit("/sbin");
    reveal_strlit("/lib");
    reveal_strlit("/lib64");
    reveal_strlit("/etc/resolv.conf");
    reveal_strlit("/etc/hosts");
    reveal_strlit("/etc/nsswitch.conf");
    reveal_strlit("/etc/ssl");
    reveal_strlit("/etc/ca-certificates");
    let k = choose|k: int| 0 <= k < base_ro_dirs().len() && base_ro_dirs()[k] == f;
    assert(f[0] == '/' && (f[1] == 'u' || f[1] == 'b' || f[1] == 's' || f[1] == 'l'));
    let fixed = seq!["--proc"@, "/proc"@, "--dev"@, "/dev"@, "--tmpfs"@, "/tmp"@, "--unshare-pid"@];
    assert(!fixed.contains(f)) by {
        if fixed.contains(f) {
            let j = choose|j: int| 0 <= j < fixed.len() && fixed[j] == f;
            assert(fixed[j][1] != f[1]);
        }
    }
    assert(!network_ro_files().contains(f)) by {
        if network_ro_files().contains(f) {
            let j = choose|j: int| 0 <= j < network_ro_files().len() && network_ro_files()[j] == f;
            assert(network_ro_files()[j][1] != f[1]);
        }
    }
    assert(f != "--ro-bind"@ && f != "--unshare-net"@ && f != "--bind"@ && f != "--chdir"@ && f
        != "--"@) by {
        assert("--ro-bind"@[0] != f[0]);
        assert("--unshare-net"@[0] != f[0]);
        assert("--bind"@[0] != f[0]);
        assert("--chdir"@[0] != f[0]);
        assert("--"@[0] != f[0]);
    }
}

// ── Choosing the backend ─────────────────────────────────────────────

/// How a command is finally run: the program, its arguments, the
/// environment variables set on it, the working directory to set (only
/// when unsandboxed; the sandboxes set their own), and a warning to print
/// first, if any.
pub struct SandboxedCommand {
    pub program: String,
    pub args: Vec<String>,
    pub env: KeyedMap<String>,
    pub cwd: Option<String>,
    pub warning: Option<String>,
}

pub open spec fn proot_warning() -> Seq<char> {
    "⚠ bucket: bwrap not found — falling back to proot compatibility isolation (network and PID namespaces are NOT isolated under this backend)"@
}

pub open spec fn unsandboxed_warning() -> Seq<char> {
    "⚠ bucket: bwrap and proot not found on PATH — running WITHOUT sandbox isolation (install bubblewrap for real containment)"@
}

/// Wrap `program args` for `profile`: under `bwrap` when it was found
/// (`bwrap` holds its path), else under `proot` with a warning, else run
/// as it is, in `cwd`, with a warning that nothing is isolated. Whichever
/// runs it, the command carries every variable of `env`.
pub fn sandboxed_command(
    program: &str,
    args: &Vec<String>,
    cwd: &str,
    env: &KeyedMap<String>,
    profile: &SandboxProfile,
    bwrap: Option<String>,
    proot: Option<String>,
    existing: &Vec<String>,
) -> (r: SandboxedCommand)
    ensures
        r.env@ == env@,
        match bwrap {
            Some(b) => {
                &&& r.program@ == b@
                &&& strings_view(r.args@) == bwrap_args_spec(
                    program@,
                    strings_view(args@),
                    cwd@,
                    profile@,
                    strings_view(existing@),
                )
                &&& r.cwd is None
                &&& r.warning is None
            },
            None => match proot {
                Some(p) => {
                    &&& r.program@ == p@
                    &&& strings_view(r.args@) == proot_args_spec(
                        program@,
                        strings_view(args@),
                        cwd@,
                        profile@,
                    )
                    &&& r.cwd is None
                    &&& r.warning matches Some(w) && w@ == proot_warning()
                },
                None => {
                    &&& r.program@ == program@
                    &&& strings_view(r.args@) == strings_view(args@)
                    &&& r.cwd matches Some(c) && c@ == cwd@
                    &&& r.warning matches Some(w) && w@ == unsandboxed_warning()
                },
            },
        },
{
    let vars = clone_string_map(env);
    match bwrap {
        Some(b) => {
            let a = build_bwrap_args(program, args, cwd, profile, existing);
            SandboxedCommand { program: b, args: a, env: vars, cwd: None, warning: None }
        },
        None => match proot {
            Some(p) => {
                let a = build_proot_args(program, args, cwd, profile);
                let w = String::from_str(
                    "⚠ bucket: bwrap not found — falling back to proot compatibility isolation (network and PID namespaces are NOT isolated under this backend)",
                );
                SandboxedCommand { program: p, args: a, env: vars, cwd: None, warning: Some(w) }
            },
            None => {
                let mut a: Vec<String> = Vec::new();
                push_all(&mut a, args);
                proof {
                    assert(strings_view(a@) =~= strings_view(args@));
                }
                let w = String::from_str(
                    "⚠ bucket: bwrap and proot not found on PATH — running WITHOUT sandbox isolation (install bubblewrap for real containment)",
                );
                SandboxedCommand {
                    program: String::from_str(program),
                    args: a,
                    env: vars,
                    cwd: Some(String::from_str(cwd)),
                    warning: Some(w),
                }
            },
        },
    }
}

} // verus!
