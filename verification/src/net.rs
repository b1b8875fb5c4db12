//! Buck-nets: isolated virtual networks for buckets. A rootless
//! `unshare --user --net` keeper process holds a network namespace alive;
//! buckets join it through `/proc/<keeper>/ns/net` and talk over its
//! loopback. This module names the namespace files and builds the command
//! lines; spawning the keeper and forwarding ports are the caller's.
use vstd::prelude::*;

use crate::text::{dec, push_dec, push_str, string_of};

verus! {

broadcast use vstd::string::group_string_axioms;

pub open spec fn strings_view(v: Seq<String>) -> Seq<Seq<char>> {
    v.map_values(|s: String| s@)
}

/// What is persisted of a running buck-net.
#[derive(Debug, Clone)]
pub struct NetInfo {
    pub name: String,
    pub keeper_pid: u32,
}

/// A named, isolated network namespace that buckets can join. It does not
/// own its keeper process: only destroying the net ends it.
#[derive(Debug)]
pub struct NetSession {
    pub name: String,
    pub keeper_pid: u32,
    /// Where the net's state is persisted.
    pub state_dir: String,
}

pub open spec fn ns_file(pid: u32, kind: Seq<char>) -> Seq<char> {
    "/proc/"@ + dec(pid as nat) + "/ns/"@ + kind
}

fn ns_file_exec(pid: u32, kind: &str) -> (r: String)
    ensures
        r@ == ns_file(pid, kind@),
{
    let mut out: Vec<char> = Vec::new();
    push_str(&mut out, "/proc/");
    push_dec(&mut out, pid as u64);
    push_str(&mut out, "/ns/");
    push_str(&mut out, kind);
    string_of(&out)
}

impl NetSession {
    /// A session for the keeper `keeper_pid`, persisted under `state_dir`.
    pub fn new(name: String, keeper_pid: u32, state_dir: String) -> (r: NetSession)
        ensures
            r.name == name,
            r.keeper_pid == keeper_pid,
            r.state_dir == state_dir,
    {
        NetSession { name, keeper_pid, state_dir }
    }

    /// The network namespace file, for `bwrap --netns`.
    pub fn ns_path(&self) -> (r: String)
        ensures
            r@ == ns_file(self.keeper_pid, "net"@),
    {
        ns_file_exec(self.keeper_pid, "net")
    }

    /// The user namespace file, used with `ns_path` by `nsenter`.
    pub fn user_ns_path(&self) -> (r: String)
        ensures
            r@ == ns_file(self.keeper_pid, "user"@),
    {
        ns_file_exec(self.keeper_pid, "user")
    }

    /// The persisted record of this net.
    pub fn info(&self) -> (r: NetInfo)
        ensures
            r.name@ == self.name@,
            r.keeper_pid == self.keeper_pid,
    {
        NetInfo { name: self.name.clone(), keeper_pid: self.keeper_pid }
    }

    /// The arguments to `socat` that forward `host_port` on the host's
    /// loopback to `bucket_port` on the namespace's loopback, entering the
    /// namespace with `nsenter` for each connection.
    pub fn forward_args(&self, host_port: u16, bucket_port: u16) -> (r: Vec<String>)
        ensures
            strings_view(r@) == seq![
                "TCP-LISTEN:"@ + dec(host_port as nat) + ",fork,reuseaddr,bind=127.0.0.1"@,
                "EXEC:\"nsenter --user="@ + ns_file(self.keeper_pid, "user"@) + " --net="@ + ns_file(
                    self.keeper_pid,
                    "net"@,
                ) + " --preserve-credentials -- socat - TCP:127.0.0.1:"@ + dec(bucket_port as nat)
                    + "\""@,
            ],
    {
        let mut listen: Vec<char> = Vec::new();
        push_str(&mut listen, "TCP-LISTEN:");
        push_dec(&mut listen, host_port as u64);
        push_str(&mut listen, ",fork,reuseaddr,bind=127.0.0.1");
        let user = self.user_ns_path();
        let net = self.ns_path();
        let mut exec: Vec<char> = Vec::new();
        push_str(&mut exec, "EXEC:\"nsenter --user=");
        push_str(&mut exec, user.as_str());
        push_str(&mut exec, " --net=");
        push_str(&mut exec, net.as_str());
        push_str(&mut exec, " --preserve-credentials -- socat - TCP:127.0.0.1:");
        push_dec(&mut exec, bucket_port as u64);
        push_str(&mut exec, "\"");
        let mut v: Vec<String> = Vec::new();
        v.push(string_of(&listen));
        v.push(string_of(&exec));
        proof {
            assert(strings_view(v@) =~= seq![listen@, exec@]);
        }
        v
    }
}

/// The arguments to `unshare` that start a keeper holding a fresh user and
/// network namespace.
pub fn keeper_args() -> (r: Vec<String>)
    ensures
        strings_view(r@) == seq!["--user"@, "--net"@, "--"@, "sleep"@, "infinity"@],
{
    let mut v: Vec<String> = Vec::new();
    v.push(String::from_str("--user"));
    v.push(String::from_str("--net"));
    v.push(String::from_str("--"));
    v.push(String::from_str("sleep"));
    v.push(String::from_str("infinity"));
    proof {
        assert(strings_view(v@) =~= seq!["--user"@, "--net"@, "--"@, "sleep"@, "infinity"@]);
    }
    v
}

/// The arguments to `nsenter` that bring the loopback up inside the
/// keeper's namespaces.
pub fn loopback_up_args(keeper_pid: u32) -> (r: Vec<String>)
    ensures
        strings_view(r@) == seq![
            "--user="@ + ns_file(keeper_pid, "user"@),
            "--net="@ + ns_file(keeper_pid, "net"@),
            "--preserve-credentials"@,
            "--"@,
            "ip"@,
            "link"@,
            "set"@,
            "lo"@,
            "up"@,
        ],
{
    let user = ns_file_exec(keeper_pid, "user");
    let net = ns_file_exec(keeper_pid, "net");
    let mut u: Vec<char> = Vec::new();
    push_str(&mut u, "--user=");
    push_str(&mut u, user.as_str());
    let mut n: Vec<char> = Vec::new();
    push_str(&mut n, "--net=");
    push_str(&mut n, net.as_str());
    let mut v: Vec<String> = Vec::new();
    v.push(string_of(&u));
    v.push(string_of(&n));
    v.push(String::from_str("--preserve-credentials"));
    v.push(String::from_str("--"));
    v.push(String::from_str("ip"));
    v.push(String::from_str("link"));
    v.push(String::from_str("set"));
    v.push(String::from_str("lo"));
    v.push(String::from_str("up"));
    proof {
        assert(strings_view(v@) =~= seq![
            "--user="@ + ns_file(keeper_pid, "user"@),
            "--net="@ + ns_file(keeper_pid, "net"@),
            "--preserve-credentials"@,
            "--"@,
            "ip"@,
            "link"@,
            "set"@,
            "lo"@,
            "up"@,
        ]);
    }
    v
}

/// Why a net cannot be created: one of that name exists.
pub fn already_exists_message(name: &str) -> (r: String)
    ensures
        r@ == "Buck-net '"@ + name@ + "' already exists — use 'buckets net rm "@ + name@
            + "' to remove it first."@,
{
    let mut out: Vec<char> = Vec::new();
    push_str(&mut out, "Buck-net '");
    push_str(&mut out, name);
    push_str(&mut out, "' already exists — use 'buckets net rm ");
    push_str(&mut out, name);
    push_str(&mut out, "' to remove it first.");
    string_of(&out)
}

/// Why a net cannot be loaded: its keeper is gone (and its state removed).
pub fn stale_message(name: &str, keeper_pid: u32) -> (r: String)
    ensures
        r@ == "Buck-net '"@ + name@ + "' is stale — keeper process ("@ + dec(keeper_pid as nat)
            + ") is gone. Stale state cleaned up."@,
{
    let mut out: Vec<char> = Vec::new();
    push_str(&mut out, "Buck-net '");
    push_str(&mut out, name);
    push_str(&mut out, "' is stale — keeper process (");
    push_dec(&mut out, keeper_pid as u64);
    push_str(&mut out, ") is gone. Stale state cleaned up.");
    string_of(&out)
}

/// The nets worth listing: those whose keeper is still alive
/// (`alive[i]` for `infos[i]`), in order.
pub open spec fn live_nets(infos: Seq<NetInfo>, alive: Seq<bool>) -> Seq<NetInfo>
    decreases infos.len(),
{
    if infos.len() == 0 || alive.len() == 0 {
        seq![]
    } else {
        let prev = live_nets(infos.drop_last(), alive.drop_last());
        if alive.last() {
            prev.push(infos.last())
        } else {
            prev
        }
    }
}

/// Keep the nets whose keeper is alive; the others are stale.
pub fn keep_live(infos: Vec<NetInfo>, alive: &Vec<bool>) -> (r: Vec<NetInfo>)
    requires
        infos@.len() == alive@.len(),
    ensures
        r@ == live_nets(infos@, alive@),
{
    let mut out: Vec<NetInfo> = Vec::new();
    let mut rest = infos;
    let ghost all = rest@;
    let mut i: usize = 0;
    let n = rest.len();
    proof {
        assert(all.take(0) =~= seq![]);
        assert(alive@.take(0) =~= seq![]);
    }
    while i < n
        invariant
            i <= n,
            n == all.len(),
            all.len() == alive@.len(),
            rest@ == all.skip(i as int),
            out@ == live_nets(all.take(i as int), alive@.take(i as int)),
        decreases n - i,
    {
        let info = rest.remove(0);
        proof {
            assert(info == all[i as int]);
            assert(all.skip(i as int).drop_first() =~= all.skip(i + 1));
            assert(all.take(i + 1).drop_last() =~= all.take(i as int));
            assert(alive@.take(i + 1).drop_last() =~= alive@.take(i as int));
            assert(all.take(i + 1).last() == all[i as int]);
            assert(alive@.take(i + 1).last() == alive@[i as int]);
        }
        if alive[i] {
            out.push(info);
        }
        i += 1;
    }
    proof {
        assert(all.take(n as int) =~= all);
        assert(alive@.take(n as int) =~= alive@);
    }
    out
}

} // verus!
