//! GUI buckets: a fresh, isolated `Xvfb` X server per session, with a
//! session-scoped Xauthority cookie and only that server's one socket
//! bound into the sandbox. This module picks the display number and
//! builds the command lines; starting the processes is the caller's.
use vstd::prelude::*;

use crate::keyed::{assoc_insert, clone_string_map, KeyedMap};
use crate::sandbox::{SandboxProfile, SandboxProfileV};
use crate::text::{dec, push_dec, push_str, str_eq, string_of};

verus! {

broadcast use vstd::string::group_string_axioms;

pub open spec fn strings_view(v: Seq<String>) -> Seq<Seq<char>> {
    v.map_values(|s: String| s@)
}

/// The X11 socket of display `n`.
pub open spec fn socket_path_spec(n: u32) -> Seq<char> {
    "/tmp/.X11-unix/X"@ + dec(n as nat)
}

/// The single X11 socket file of display `display_number`, the one file
/// bound into the sandbox.
pub fn socket_path_for(display_number: u32) -> (r: String)
    ensures
        r@ == socket_path_spec(display_number),
{
    let mut out: Vec<char> = Vec::new();
    push_str(&mut out, "/tmp/.X11-unix/X");
    push_dec(&mut out, display_number as u64);
    string_of(&out)
}

/// The socket name of display `n` inside the X11 socket directory.
pub open spec fn socket_name(n: u32) -> Seq<char> {
    seq!['X'] + dec(n as nat)
}

/// The first display number from `n` below 10000 whose socket is not
/// among `existing`, or 10000 when there is none.
pub open spec fn first_free(existing: Seq<Seq<char>>, n: int) -> int
    decreases 10000 - n,
{
    if n >= 10000 {
        10000
    } else if !existing.contains(socket_name(n as u32)) {
        n
    } else {
        first_free(existing, n + 1)
    }
}

/// The display picked is free, and every candidate from `n` below it is
/// taken.
pub proof fn lemma_first_free(existing: Seq<Seq<char>>, n: int)
    requires
        n <= 10000,
    ensures
        n <= first_free(existing, n) <= 10000,
        first_free(existing, n) < 10000 ==> !existing.contains(
            socket_name(first_free(existing, n) as u32),
        ),
        forall|k: int|
            n <= k < first_free(existing, n) ==> existing.contains(#[trigger] socket_name(k as u32)),
    decreases 10000 - n,
{
    if n < 10000 && existing.contains(socket_name(n as u32)) {
        lemma_first_free(existing, n + 1);
    }
}

/// Why no display could be picked.
#[derive(Debug)]
pub enum GuiError {
    NoFreeDisplay,
}

fn contains_name(list: &Vec<String>, s: &Vec<char>) -> (r: bool)
    ensures
        r == strings_view(list@).contains(s@),
{
    let t = string_of(s);
    let mut i: usize = 0;
    while i < list.len()
        invariant
            i <= list.len(),
            t@ == s@,
            forall|j: int| 0 <= j < i ==> list@[j]@ != s@,
        decreases list.len() - i,
    {
        if str_eq(list[i].as_str(), t.as_str()) {
            proof {
                assert(strings_view(list@)[i as int] == s@);
            }
            return true;
        }
        i += 1;
    }
    proof {
        if strings_view(list@).contains(s@) {
            let k = choose|k: int| 0 <= k < strings_view(list@).len() && strings_view(list@)[k] == s@;
            assert(list@[k]@ == s@);
        }
    }
    false
}

/// The first display number from 99 (well clear of real sessions, which
/// are almost always `:0`-`:9`) whose socket is not among `existing`, the
/// names in the X11 socket directory; an error when 99..10000 are all
/// taken.
pub fn find_free_display_in(existing: &Vec<String>) -> (r: Result<u32, GuiError>)
    ensures
        match r {
            Ok(n) => n == first_free(strings_view(existing@), 99) && n < 10000,
            Err(_) => first_free(strings_view(existing@), 99) == 10000,
        },
{
    let ghost ex = strings_view(existing@);
    let mut n: u32 = 99;
    while n < 10000
        invariant
            99 <= n <= 10000,
            ex == strings_view(existing@),
            first_free(ex, 99) == first_free(ex, n as int),
        decreases 10000 - n,
    {
        let mut name = vec!['X'];
        push_dec(&mut name, n as u64);
        proof {
            assert(name@ =~= socket_name(n));
        }
        if !contains_name(existing, &name) {
            return Ok(n);
        }
        n += 1;
    }
    Err(GuiError::NoFreeDisplay)
}

/// The display name of display `n`: `:n`.
pub fn display_name(n: u32) -> (r: String)
    ensures
        r@ == seq![':'] + dec(n as nat),
{
    let mut out: Vec<char> = vec![':'];
    push_dec(&mut out, n as u64);
    string_of(&out)
}

/// The session's cookie file name, unique to display and process.
pub fn xauthority_file_name(n: u32, pid: u32) -> (r: String)
    ensures
        r@ == "buckets-gui-"@ + dec(n as nat) + seq!['-'] + dec(pid as nat) + ".xauth"@,
{
    let mut out: Vec<char> = Vec::new();
    push_str(&mut out, "buckets-gui-");
    push_dec(&mut out, n as u64);
    out.push('-');
    push_dec(&mut out, pid as u64);
    push_str(&mut out, ".xauth");
    string_of(&out)
}

/// The arguments to `xauth` that install `cookie` for `display` in the
/// cookie file.
pub fn xauth_add_args(xauthority: &str, display: &str, cookie: &str) -> (r: Vec<String>)
    ensures
        strings_view(r@) == seq!["-f"@, xauthority@, "add"@, display@, "."@, cookie@],
{
    let mut v: Vec<String> = Vec::new();
    v.push(String::from_str("-f"));
    v.push(String::from_str(xauthority));
    v.push(String::from_str("add"));
    v.push(String::from_str(display));
    v.push(String::from_str("."));
    v.push(String::from_str(cookie));
    proof {
        assert(strings_view(v@) =~= seq!["-f"@, xauthority@, "add"@, display@, "."@, cookie@]);
    }
    v
}

/// The arguments to `Xvfb` for a `width`x`height`x`depth` screen that
/// reads its security database from the cookie file.
pub fn xvfb_args(display: &str, width: u32, height: u32, depth: u32, xauthority: &str) -> (r: Vec<
    String,
>)
    ensures
        strings_view(r@) == seq![
            display@,
            "-screen"@,
            "0"@,
            dec(width as nat) + seq!['x'] + dec(height as nat) + seq!['x'] + dec(depth as nat),
            "-auth"@,
            xauthority@,
        ],
{
    let mut geo: Vec<char> = Vec::new();
    push_dec(&mut geo, width as u64);
    geo.push('x');
    push_dec(&mut geo, height as u64);
    geo.push('x');
    push_dec(&mut geo, depth as u64);
    proof {
        assert(geo@ =~= dec(width as nat) + seq!['x'] + dec(height as nat) + seq!['x'] + dec(depth as nat));
    }
    let mut v: Vec<String> = Vec::new();
    v.push(String::from_str(display));
    v.push(String::from_str("-screen"));
    v.push(String::from_str("0"));
    v.push(string_of(&geo));
    v.push(String::from_str("-auth"));
    v.push(String::from_str(xauthority));
    proof {
        assert(strings_view(v@) =~= seq![
            display@,
            "-screen"@,
            "0"@,
            dec(width as nat) + seq!['x'] + dec(height as nat) + seq!['x'] + dec(depth as nat),
            "-auth"@,
            xauthority@,
        ]);
    }
    v
}

/// The arguments to ImageMagick's `import` that capture the display's
/// root window into `output`.
pub fn screenshot_args(display: &str, output: &str) -> (r: Vec<String>)
    ensures
        strings_view(r@) == seq!["-display"@, display@, "-window"@, "root"@, output@],
{
    let mut v: Vec<String> = Vec::new();
    v.push(String::from_str("-display"));
    v.push(String::from_str(display));
    v.push(String::from_str("-window"));
    v.push(String::from_str("root"));
    v.push(String::from_str(output));
    proof {
        assert(strings_view(v@) =~= seq!["-display"@, display@, "-window"@, "root"@, output@]);
    }
    v
}

/// The arguments to `x11vnc` serving `display` on `port`: with a password
/// when one is given (an empty one adds nothing), without one (`-nopw`)
/// when none is.
pub fn vnc_args(display: &str, port: u16, password: Option<&str>) -> (r: Vec<String>)
    ensures
        strings_view(r@) == seq![
            "-display"@,
            display@,
            "-rfbport"@,
            dec(port as nat),
            "-forever"@,
            "-shared"@,
            "-noipv6"@,
        ] + match password {
            Some(p) => if p@.len() > 0 {
                seq!["-passwd"@, p@]
            } else {
                seq![]
            },
            None => seq!["-nopw"@],
        },
{
    let mut port_text: Vec<char> = Vec::new();
    push_dec(&mut port_text, port as u64);
    let mut v: Vec<String> = Vec::new();
    v.push(String::from_str("-display"));
    v.push(String::from_str(display));
    v.push(String::from_str("-rfbport"));
    v.push(string_of(&port_text));
    v.push(String::from_str("-forever"));
    v.push(String::from_str("-shared"));
    v.push(String::from_str("-noipv6"));
    let ghost head = strings_view(v@);
    proof {
        assert(head =~= seq![
            "-display"@,
            display@,
            "-rfbport"@,
            dec(port as nat),
            "-forever"@,
            "-shared"@,
            "-noipv6"@,
        ]);
    }
    match password {
        Some(p) => {
            if !p.is_empty() {
                v.push(String::from_str("-passwd"));
                v.push(String::from_str(p));
                proof {
                    assert(strings_view(v@) =~= head + seq!["-passwd"@, p@]);
                }
            } else {
                proof {
                    assert(strings_view(v@) =~= head + seq![]);
                }
            }
        },
        None => {
            v.push(String::from_str("-nopw"));
            proof {
                assert(strings_view(v@) =~= head + seq!["-nopw"@]);
            }
        },
    }
    v
}

// ── Running a command on a display ───────────────────────────────────

/// An X display a command is shown on: its name (`:99`), its one socket,
/// and its Xauthority file.
#[derive(Debug, Clone)]
pub struct DisplayFiles {
    pub display: String,
    pub socket: String,
    pub xauthority: String,
}

/// `env` with `DISPLAY` and `XAUTHORITY` set for the display.
pub open spec fn display_env_spec(
    env: Seq<(Seq<char>, Seq<char>)>,
    display: Seq<char>,
    xauthority: Seq<char>,
) -> Seq<(Seq<char>, Seq<char>)> {
    assoc_insert(assoc_insert(env, "DISPLAY"@, display), "XAUTHORITY"@, xauthority)
}

/// The environment a command on display `d` runs with: `env` with
/// `DISPLAY` and `XAUTHORITY` set over it.
pub fn display_env(env: &KeyedMap<String>, d: &DisplayFiles) -> (r: KeyedMap<String>)
    ensures
        r@ == display_env_spec(env@, d.display@, d.xauthority@),
        env.wf() ==> r.wf(),
{
    let mut out = clone_string_map(env);
    out.insert(String::from_str("DISPLAY"), d.display.clone());
    out.insert(String::from_str("XAUTHORITY"), d.xauthority.clone());
    out
}

/// The read-only binds a sandboxed command on display `d` gets: `binds`,
/// then the display's socket and its Xauthority file.
pub fn display_binds(binds: &Vec<String>, d: &DisplayFiles) -> (r: Vec<String>)
    ensures
        strings_view(r@) == strings_view(binds@) + seq![d.socket@, d.xauthority@],
{
    let mut out: Vec<String> = Vec::new();
    let mut i: usize = 0;
    while i < binds.len()
        invariant
            i <= binds.len(),
            strings_view(out@) == strings_view(binds@).take(i as int),
        decreases binds.len() - i,
    {
        let ghost prev = strings_view(out@);
        out.push(binds[i].clone());
        proof {
            assert(strings_view(out@) =~= prev.push(binds@[i as int]@));
            assert(strings_view(binds@).take(i + 1) =~= strings_view(binds@).take(i as int).push(
                binds@[i as int]@,
            ));
        }
        i += 1;
    }
    let ghost before = strings_view(out@);
    out.push(d.socket.clone());
    out.push(d.xauthority.clone());
    proof {
        assert(strings_view(binds@).take(binds.len() as int) =~= strings_view(binds@));
        assert(strings_view(out@) =~= before + seq![d.socket@, d.xauthority@]);
    }
    out
}

/// The sandbox of a `gui` command run in `cwd` on display `d`: `cwd`
/// writable, the installations, the display's socket and Xauthority file
/// read-only, and no network.
pub fn gui_profile(cwd: &str, installations: &Vec<String>, d: &DisplayFiles) -> (r: SandboxProfile)
    ensures
        r@ == (SandboxProfileV {
            project_dir: Some(cwd@),
            extra_ro_binds: strings_view(installations@) + seq![d.socket@, d.xauthority@],
            allow_network: false,
        }),
{
    let binds = display_binds(installations, d);
    let r = SandboxProfile {
        project_dir: Some(String::from_str(cwd)),
        extra_ro_binds: binds,
        allow_network: false,
    };
    proof {
        assert(crate::sandbox::strings_view(binds@) =~= strings_view(binds@));
    }
    r
}

} // verus!
