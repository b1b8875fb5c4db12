//! Ephemeral git worktrees: a task gets its own working copy at a fresh
//! branch, named `<repo>-<branch>` next to the repository (or under an
//! explicit parent). This module names the worktree and builds the `git`
//! command lines; running `git` is the caller's. Removing a branch uses
//! `git branch -d`, whose refusal on an unmerged branch is the safety
//! check.
use vstd::prelude::*;

use crate::paths::{join, join_path};
use crate::text::{chars_of, push_chars, push_str, string_of};

verus! {

broadcast use vstd::string::group_string_axioms;

pub open spec fn strings_view(v: Seq<String>) -> Seq<Seq<char>> {
    v.map_values(|s: String| s@)
}

/// A character kept as it is in a worktree name.
pub open spec fn slug_safe(c: char) -> bool {
    ('0' <= c <= '9') || ('a' <= c <= 'z') || ('A' <= c <= 'Z') || c == '-' || c == '_'
}

/// `s` with every character other than ASCII letters, digits, `-` and `_`
/// replaced by `-`.
pub open spec fn slug(s: Seq<char>) -> Seq<char> {
    Seq::new(s.len(), |i: int| if slug_safe(s[i]) { s[i] } else { '-' })
}

/// A slug has the length of its input, holds only safe characters, keeps
/// every safe character where it was, and slugifying it again changes
/// nothing.
pub proof fn lemma_slug_is_safe(s: Seq<char>)
    ensures
        slug(s).len() == s.len(),
        forall|i: int| 0 <= i < s.len() ==> slug_safe(#[trigger] slug(s)[i]),
        forall|i: int| 0 <= i < s.len() && slug_safe(s[i]) ==> #[trigger] slug(s)[i] == s[i],
        slug(slug(s)) == slug(s),
{
    assert(slug(slug(s)) =~= slug(s));
}

/// A filesystem-safe worktree name component for a branch name.
pub fn slugify(s: &str) -> (r: String)
    ensures
        r@ == slug(s@),
{
    let c = chars_of(s);
    let mut out: Vec<char> = Vec::new();
    let mut i: usize = 0;
    while i < c.len()
        invariant
            i <= c.len(),
            out@.len() == i,
            forall|j: int| 0 <= j < i ==> out@[j] == (if slug_safe(c@[j]) { c@[j] } else { '-' }),
        decreases c.len() - i,
    {
        let ch = c[i];
        if ('0' <= ch && ch <= '9') || ('a' <= ch && ch <= 'z') || ('A' <= ch && ch <= 'Z') || ch
            == '-' || ch == '_' {
            out.push(ch);
        } else {
            out.push('-');
        }
        i += 1;
    }
    proof {
        assert(out@ =~= slug(s@));
    }
    string_of(&out)
}

/// Where worktrees go: the explicit parent when one is configured, else
/// the repository's own parent directory (so relative sibling paths keep
/// working), else the current directory.
pub fn worktree_parent(explicit: Option<String>, repo_parent: Option<String>) -> (r: String)
    ensures
        r@ == match explicit {
            Some(e) => e@,
            None => match repo_parent {
                Some(p) => p@,
                None => "."@,
            },
        },
{
    match explicit {
        Some(e) => e,
        None => match repo_parent {
            Some(p) => p,
            None => String::from_str("."),
        },
    }
}

/// The worktree's path: `<parent>/<repo name>-<slugified branch>`; a repo
/// without a name is called `repo`.
pub fn worktree_dest(parent: &str, repo_name: Option<&str>, branch: &str) -> (r: String)
    ensures
        r@ == join(
            parent@,
            match repo_name {
                Some(n) => n@,
                None => "repo"@,
            } + seq!['-'] + slug(branch@),
        ),
{
    let mut name: Vec<char> = Vec::new();
    match repo_name {
        Some(n) => push_str(&mut name, n),
        None => push_str(&mut name, "repo"),
    }
    name.push('-');
    let s = slugify(branch);
    push_str(&mut name, s.as_str());
    let ns = string_of(&name);
    join_path(parent, ns.as_str())
}

fn push_lit(v: &mut Vec<String>, s: &str)
    ensures
        strings_view(final(v)@) == strings_view(old(v)@).push(s@),
{
    v.push(String::from_str(s));
    proof {
        assert(strings_view(final(v)@) =~= strings_view(old(v)@).push(s@));
    }
}

/// The `git` arguments that add the worktree at `dest`: on the existing
/// `branch`, or on a new `branch` made from `base` (the repository's
/// `HEAD` when not given).
pub fn worktree_add_args(repo: &str, dest: &str, branch: &str, branch_exists: bool, base: Option<&str>) -> (r:
    Vec<String>)
    ensures
        strings_view(r@) == seq!["-C"@, repo@, "worktree"@, "add"@] + if branch_exists {
            seq![dest@, branch@]
        } else {
            seq!["-b"@, branch@, dest@] + match base {
                Some(b) => seq![b@],
                None => seq![],
            }
        },
{
    let mut v: Vec<String> = Vec::new();
    push_lit(&mut v, "-C");
    push_lit(&mut v, repo);
    push_lit(&mut v, "worktree");
    push_lit(&mut v, "add");
    if branch_exists {
        push_lit(&mut v, dest);
        push_lit(&mut v, branch);
    } else {
        push_lit(&mut v, "-b");
        push_lit(&mut v, branch);
        push_lit(&mut v, dest);
        match base {
            Some(b) => push_lit(&mut v, b),
            None => {},
        }
    }
    proof {
        assert(strings_view(v@) =~= seq!["-C"@, repo@, "worktree"@, "add"@] + if branch_exists {
            seq![dest@, branch@]
        } else {
            seq!["-b"@, branch@, dest@] + match base {
                Some(b) => seq![b@],
                None => seq![],
            }
        });
    }
    v
}

/// The `git` arguments that remove the worktree at `path` (forcibly when
/// `force`).
pub fn worktree_remove_args(repo: &str, path: &str, force: bool) -> (r: Vec<String>)
    ensures
        strings_view(r@) == seq!["-C"@, repo@, "worktree"@, "remove"@] + (if force {
            seq!["--force"@]
        } else {
            seq![]
        }) + seq![path@],
{
    let mut v: Vec<String> = Vec::new();
    push_lit(&mut v, "-C");
    push_lit(&mut v, repo);
    push_lit(&mut v, "worktree");
    push_lit(&mut v, "remove");
    if force {
        push_lit(&mut v, "--force");
    }
    push_lit(&mut v, path);
    proof {
        assert(strings_view(v@) =~= seq!["-C"@, repo@, "worktree"@, "remove"@] + (if force {
            seq!["--force"@]
        } else {
            seq![]
        }) + seq![path@]);
    }
    v
}

/// The `git` arguments that delete `branch`: `-d`, which git refuses for
/// an unmerged branch, or `-D` when `force`.
pub fn branch_delete_args(repo: &str, branch: &str, force: bool) -> (r: Vec<String>)
    ensures
        strings_view(r@) == seq![
            "-C"@,
            repo@,
            "branch"@,
            if force {
                "-D"@
            } else {
                "-d"@
            },
            branch@,
        ],
{
    let mut v: Vec<String> = Vec::new();
    push_lit(&mut v, "-C");
    push_lit(&mut v, repo);
    push_lit(&mut v, "branch");
    if force {
        push_lit(&mut v, "-D");
    } else {
        push_lit(&mut v, "-d");
    }
    push_lit(&mut v, branch);
    proof {
        assert(strings_view(v@) =~= seq![
            "-C"@,
            repo@,
            "branch"@,
            if force {
                "-D"@
            } else {
                "-d"@
            },
            branch@,
        ]);
    }
    v
}

/// The `git` arguments that check whether local `branch` exists.
pub fn branch_exists_args(repo: &str, branch: &str) -> (r: Vec<String>)
    ensures
        strings_view(r@) == seq![
            "-C"@,
            repo@,
            "show-ref"@,
            "--verify"@,
            "--quiet"@,
            "refs/heads/"@ + branch@,
        ],
{
    let mut refname: Vec<char> = Vec::new();
    push_str(&mut refname, "refs/heads/");
    push_str(&mut refname, branch);
    let mut v: Vec<String> = Vec::new();
    push_lit(&mut v, "-C");
    push_lit(&mut v, repo);
    push_lit(&mut v, "show-ref");
    push_lit(&mut v, "--verify");
    push_lit(&mut v, "--quiet");
    let ghost head = strings_view(v@);
    let r = string_of(&refname);
    let ghost rv = r@;
    v.push(r);
    proof {
        assert(strings_view(v@) =~= head.push(rv));
    }
    v
}

/// The `git` arguments that list a repository's worktrees.
pub fn worktree_list_args(repo: &str) -> (r: Vec<String>)
    ensures
        strings_view(r@) == seq!["-C"@, repo@, "worktree"@, "list"@],
{
    let mut v: Vec<String> = Vec::new();
    push_lit(&mut v, "-C");
    push_lit(&mut v, repo);
    push_lit(&mut v, "worktree");
    push_lit(&mut v, "list");
    v
}

// ── Refusals ─────────────────────────────────────────────────────────

/// Why a worktree cannot be created.
#[derive(Debug, Clone)]
pub enum WorktreeError {
    /// The repository directory has no `.git`.
    NotARepository { repo: String },
    /// Something already stands where the worktree would go.
    DestinationExists { dest: String },
}

impl WorktreeError {
    /// The message shown for this error.
    pub fn message(&self) -> (r: String)
        ensures
            r@ == match self {
                WorktreeError::NotARepository { repo } => repo@ + " is not a git repository (no .git)"@,
                WorktreeError::DestinationExists { dest } => dest@
                    + " already exists — remove it first or pick a different branch name"@,
            },
    {
        let mut out: Vec<char> = Vec::new();
        match self {
            WorktreeError::NotARepository { repo } => {
                push_str(&mut out, repo.as_str());
                push_str(&mut out, " is not a git repository (no .git)");
            },
            WorktreeError::DestinationExists { dest } => {
                push_str(&mut out, dest.as_str());
                push_str(&mut out, " already exists — remove it first or pick a different branch name");
            },
        }
        string_of(&out)
    }
}

/// Refuses a repository directory without `.git` (`has_git` says whether
/// `repo/.git` exists).
pub fn check_repository(repo: &str, has_git: bool) -> (r: Result<(), WorktreeError>)
    ensures
        r is Ok <==> has_git,
        r matches Err(e) ==> e matches WorktreeError::NotARepository { repo: x } && x@ == repo@,
{
    if has_git {
        Ok(())
    } else {
        Err(WorktreeError::NotARepository { repo: String::from_str(repo) })
    }
}

/// Refuses a destination that already exists (`exists` says whether it
/// does): a worktree never goes over something already there.
pub fn check_destination(dest: &str, exists: bool) -> (r: Result<(), WorktreeError>)
    ensures
        r is Ok <==> !exists,
        r matches Err(e) ==> e matches WorktreeError::DestinationExists { dest: x } && x@ == dest@,
{
    if exists {
        Err(WorktreeError::DestinationExists { dest: String::from_str(dest) })
    } else {
        Ok(())
    }
}

} // verus!
