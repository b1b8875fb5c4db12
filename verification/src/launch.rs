//! How `run` and `shell` launch a command in a bucket: the bucket's label
//! and shell prompt, the command a local bucket runs by default, and the
//! environment it runs with.
use vstd::prelude::*;

use crate::config::extend_spec;
use crate::keyed::{clone_string_map, KeyedMap};
use crate::paths::join;
use crate::text::{chars_of, push_str, split_words, string_of, words};

verus! {

broadcast use vstd::string::group_string_axioms;

pub open spec fn strings_view(v: Seq<String>) -> Seq<Seq<char>> {
    v.map_values(|s: String| s@)
}

/// The entries joined with `+`.
pub open spec fn join_plus(s: Seq<Seq<char>>) -> Seq<char>
    decreases s.len(),
{
    if s.len() == 0 {
        seq![]
    } else if s.len() == 1 {
        s[0]
    } else {
        join_plus(s.drop_last()) + seq!['+'] + s.last()
    }
}

/// A bucket's label: its specs joined with `+` (`node@20+python@3.11`).
pub fn bucket_label(specs: &Vec<String>) -> (r: String)
    ensures
        r@ == join_plus(strings_view(specs@)),
{
    let ghost all = strings_view(specs@);
    let mut out: Vec<char> = Vec::new();
    let mut i: usize = 0;
    proof {
        assert(all.take(0) =~= seq![]);
    }
    while i < specs.len()
        invariant
            i <= specs.len(),
            all == strings_view(specs@),
            out@ == join_plus(all.take(i as int)),
        decreases specs.len() - i,
    {
        proof {
            assert(all.take(i + 1).drop_last() =~= all.take(i as int));
            assert(all.take(i + 1).last() == specs@[i as int]@);
        }
        if i > 0 {
            out.push('+');
        }
        push_str(&mut out, specs[i].as_str());
        proof {
            if i == 0 {
                assert(out@ =~= join_plus(all.take(1)));
            } else {
                assert(out@ =~= join_plus(all.take(i + 1)));
            }
        }
        i += 1;
    }
    proof {
        assert(all.take(specs.len() as int) =~= all);
    }
    string_of(&out)
}

/// The shell prompt prefix of a bucket: `[<label>] `.
pub fn bucket_prompt(label: &str) -> (r: String)
    ensures
        r@ == seq!['['] + label@ + seq![']', ' '],
{
    let mut out: Vec<char> = vec!['['];
    push_str(&mut out, label);
    out.push(']');
    out.push(' ');
    string_of(&out)
}

/// Whether `t` occurs in `s`.
pub open spec fn has_infix(s: Seq<char>, t: Seq<char>) -> bool {
    exists|i: int| 0 <= i <= s.len() - t.len() && #[trigger] s.subrange(i, i + t.len()) == t
}

fn has_infix_exec(s: &Vec<char>, t: &Vec<char>) -> (r: bool)
    ensures
        r == has_infix(s@, t@),
{
    if t.len() > s.len() {
        return false;
    }
    let mut i: usize = 0;
    while i <= s.len() - t.len()
        invariant
            t.len() <= s.len(),
            i <= s.len() - t.len() + 1,
            forall|k: int| 0 <= k < i ==> #[trigger] s@.subrange(k, k + t@.len()) != t@,
        decreases s.len() - t.len() + 1 - i,
    {
        let mut j: usize = 0;
        let mut same = true;
        while j < t.len()
            invariant
                j <= t.len(),
                t.len() <= s.len(),
                i <= s.len() - t.len(),
                same == (forall|m: int| 0 <= m < j ==> s@[i + m] == t@[m]),
            decreases t.len() - j,
        {
            if s[i + j] != t[j] {
                same = false;
            }
            j += 1;
        }
        if same {
            proof {
                assert(s@.subrange(i as int, i + t@.len()) =~= t@);
            }
            return true;
        }
        proof {
            assert(s@.subrange(i as int, i + t@.len()) != t@) by {
                let k = choose|m: int| 0 <= m < t.len() && s@[i + m] != t@[m];
                assert(s@.subrange(i as int, i + t@.len())[k] == s@[i + k]);
            }
        }
        i += 1;
    }
    false
}

/// The `PS1` a bucket shell gets: a coloured prompt for `bash` and `zsh`
/// (any shell path holding either name); other shells keep their own.
pub fn shell_ps1(shell_program: &str, prompt: &str) -> (r: Option<String>)
    ensures
        (has_infix(shell_program@, "bash"@) || has_infix(shell_program@, "zsh"@)) ==> (r matches Some(
            p,
        ) && p@ == "\\[\\e[1;34m\\]"@ + prompt@ + "\\[\\e[0m\\]\\w \\$ "@),
        !(has_infix(shell_program@, "bash"@) || has_infix(shell_program@, "zsh"@)) ==> r is None,
{
    let s = chars_of(shell_program);
    let bash = chars_of("bash");
    let zsh = chars_of("zsh");
    if has_infix_exec(&s, &bash) || has_infix_exec(&s, &zsh) {
        let mut out: Vec<char> = Vec::new();
        push_str(&mut out, "\\[\\e[1;34m\\]");
        push_str(&mut out, prompt);
        push_str(&mut out, "\\[\\e[0m\\]\\w \\$ ");
        Some(string_of(&out))
    } else {
        None
    }
}

/// Whether a project is a local bucket built from a Bucketfile: its name
/// starts with `local/`.
pub fn is_local_bucket(project: &str) -> (r: bool)
    ensures
        r == (project@.len() >= 6 && project@.take(6) == "local/"@),
{
    let c = chars_of(project);
    let p = chars_of("local/");
    proof {
        reveal_strlit("local/");
    }
    crate::text::starts_with(&c, &p)
}

/// The command a local bucket runs when none is given: the words of its
/// entrypoint, the first being the program. `None` for an entrypoint
/// without words.
pub fn entrypoint_command(entrypoint: &str) -> (r: Option<(String, Vec<String>)>)
    ensures
        match r {
            Some((p, a)) => words(entrypoint@).len() > 0 && p@ == words(entrypoint@)[0]
                && strings_view(a@) == words(entrypoint@).drop_first(),
            None => words(entrypoint@).len() == 0,
        },
{
    let c = chars_of(entrypoint);
    let ws = split_words(&c);
    if ws.len() == 0 {
        return None;
    }
    let program = string_of(&ws[0]);
    let mut args: Vec<String> = Vec::new();
    let mut i: usize = 1;
    while i < ws.len()
        invariant
            1 <= i <= ws.len(),
            ws@.len() == words(c@).len(),
            c@ == entrypoint@,
            forall|j: int| 0 <= j < ws@.len() ==> #[trigger] ws@[j]@ == words(c@)[j],
            strings_view(args@) == words(c@).subrange(1, i as int),
        decreases ws.len() - i,
    {
        let ghost prev = strings_view(args@);
        let a = string_of(&ws[i]);
        let ghost av = a@;
        args.push(a);
        proof {
            assert(strings_view(args@) =~= prev.push(av));
            assert(words(c@).subrange(1, i + 1) =~= words(c@).subrange(1, i as int).push(
                words(c@)[i as int],
            ));
        }
        i += 1;
    }
    proof {
        assert(words(c@).subrange(1, ws.len() as int) =~= words(c@).drop_first());
    }
    Some((program, args))
}

/// The environment a command runs with: the resolved environment, with a
/// local bucket's recorded variables set over it.
pub fn run_env(resolved: &KeyedMap<String>, overrides: &KeyedMap<String>) -> (r: KeyedMap<String>)
    ensures
        r@ == extend_spec(resolved@, overrides@),
        resolved.wf() ==> r.wf(),
{
    let mut out = clone_string_map(resolved);
    let mut i: usize = 0;
    proof {
        assert(overrides@.take(0) =~= seq![]);
    }
    while i < overrides.entries.len()
        invariant
            i <= overrides.entries.len(),
            out@ == extend_spec(resolved@, overrides@.take(i as int)),
            resolved.wf() ==> out.wf(),
        decreases overrides.entries.len() - i,
    {
        let k = overrides.entries[i].0.clone();
        let v = overrides.entries[i].1.clone();
        out.insert(k, v);
        proof {
            assert(overrides@.take(i + 1).drop_last() =~= overrides@.take(i as int));
            assert(overrides@.take(i + 1).last() == overrides@[i as int]);
        }
        i += 1;
    }
    proof {
        assert(overrides@.take(overrides.entries.len() as int) =~= overrides@);
    }
    out
}

/// The message a command that resolves a bucket gives when no spec was named.
pub open spec fn no_specs_message() -> Seq<char> {
    "At least one spec is required (e.g. 'node@20')"@
}

/// Refuses an empty list of specs: every command that resolves a bucket
/// needs at least one.
pub fn require_specs(specs: &Vec<String>) -> (r: Result<(), String>)
    ensures
        r is Ok <==> specs@.len() > 0,
        r matches Err(m) ==> m@ == no_specs_message(),
{
    if specs.len() == 0 {
        return Err(String::from_str("At least one spec is required (e.g. 'node@20')"));
    }
    Ok(())
}

/// Why `run` has no command to start.
#[derive(Debug, Clone, Copy, PartialEq, Eq)]
pub enum RunError {
    /// A local bucket's entrypoint holds no words.
    EmptyEntrypoint,
    /// No command was given, and no local bucket supplies one.
    NoCommand,
}

impl RunError {
    /// The message shown for this error.
    pub fn message(&self) -> (r: String)
        ensures
            r@ == match self {
                RunError::EmptyEntrypoint => "Empty entrypoint in local bucket metadata"@,
                RunError::NoCommand =>
                    "No command specified. Use 'buckets run <spec> -- <command>' or 'buckets shell <spec>'"@,
            },
    {
        match self {
            RunError::EmptyEntrypoint => String::from_str("Empty entrypoint in local bucket metadata"),
            RunError::NoCommand => String::from_str(
                "No command specified. Use 'buckets run <spec> -- <command>' or 'buckets shell <spec>'",
            ),
        }
    }
}

/// The program and arguments `run` starts: the command given on the
/// command line when there is one, else the words of a local bucket's
/// entrypoint (`entrypoint` is `None` when no local bucket was resolved).
pub fn run_command(command: &Vec<String>, entrypoint: Option<&str>) -> (r: Result<
    (String, Vec<String>),
    RunError,
>)
    ensures
        command@.len() > 0 ==> (r matches Ok((p, a)) && p@ == command@[0]@ && strings_view(a@)
            == strings_view(command@).drop_first()),
        command@.len() == 0 && entrypoint is None ==> r matches Err(RunError::NoCommand),
        command@.len() == 0 && entrypoint is Some ==> match r {
            Ok((p, a)) => words(entrypoint->0@).len() > 0 && p@ == words(entrypoint->0@)[0]
                && strings_view(a@) == words(entrypoint->0@).drop_first(),
            Err(e) => e == RunError::EmptyEntrypoint && words(entrypoint->0@).len() == 0,
        },
{
    if command.len() > 0 {
        let program = command[0].clone();
        let mut args: Vec<String> = Vec::new();
        let mut i: usize = 1;
        while i < command.len()
            invariant
                1 <= i <= command.len(),
                strings_view(args@) == strings_view(command@).subrange(1, i as int),
            decreases command.len() - i,
        {
            let ghost prev = strings_view(args@);
            let a = command[i].clone();
            args.push(a);
            proof {
                assert(strings_view(args@) =~= prev.push(command@[i as int]@));
                assert(strings_view(command@).subrange(1, i + 1) =~= strings_view(command@).subrange(
                    1,
                    i as int,
                ).push(command@[i as int]@));
            }
            i += 1;
        }
        proof {
            assert(strings_view(command@).subrange(1, command.len() as int) =~= strings_view(
                command@,
            ).drop_first());
        }
        return Ok((program, args));
    }
    match entrypoint {
        Some(e) => match entrypoint_command(e) {
            Some(pa) => Ok(pa),
            None => Err(RunError::EmptyEntrypoint),
        },
        None => Err(RunError::NoCommand),
    }
}

/// The directory a sandboxed `run` starts in: a local bucket's workspace
/// (joined with its recorded working directory, when it has one), else
/// the current directory.
pub fn run_cwd(workspace: Option<&str>, workdir: Option<&str>, current: &str) -> (r: String)
    ensures
        r@ == match workspace {
            Some(ws) => match workdir {
                Some(wd) => join(ws@, wd@),
                None => ws@,
            },
            None => current@,
        },
{
    match workspace {
        Some(ws) => match workdir {
            Some(wd) => crate::paths::join_path(ws, wd),
            None => String::from_str(ws),
        },
        None => String::from_str(current),
    }
}

// ── Waiting with a timeout ───────────────────────────────────────────

/// How long a wait with a timeout sleeps between two looks at the child.
pub const POLL_INTERVAL_MS: u64 = 100;

/// What waiting for a child does next.
#[derive(Debug, Clone, Copy, PartialEq, Eq)]
pub enum WaitAction {
    /// No timeout: block until the child exits.
    Block,
    /// The child has exited: report its status.
    Collect,
    /// The timeout has passed and the child still runs: kill it, then
    /// reap it.
    Kill,
    /// Sleep `POLL_INTERVAL_MS` and look again.
    Poll,
}

/// One step of waiting for a child under an optional timeout in seconds:
/// `exited` says whether the last look found the child done, `elapsed_ms`
/// how many milliseconds have passed since the wait began. Without a
/// timeout the wait blocks; with one, an exited child is collected, one
/// still running once the timeout has passed is killed, and otherwise the
/// wait looks again.
pub fn wait_step(timeout_secs: Option<u64>, exited: bool, elapsed_ms: u64) -> (r: WaitAction)
    ensures
        timeout_secs is None ==> r == WaitAction::Block,
        timeout_secs is Some && exited ==> r == WaitAction::Collect,
        timeout_secs is Some && !exited ==> (r == if elapsed_ms >= timeout_secs->0 * 1000 {
            WaitAction::Kill
        } else {
            WaitAction::Poll
        }),
{
    match timeout_secs {
        None => WaitAction::Block,
        Some(secs) => {
            if exited {
                WaitAction::Collect
            } else {
                let whole = elapsed_ms / 1000;
                proof {
                    assert((elapsed_ms / 1000 >= secs) <==> (elapsed_ms >= secs * 1000))
                        by (nonlinear_arith);
                }
                if whole >= secs {
                    WaitAction::Kill
                } else {
                    WaitAction::Poll
                }
            }
        },
    }
}

} // verus!
