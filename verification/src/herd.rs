//! Herds: a named number of replicas of one bucket command, kept alive by
//! a reconciler that checks every replica each `check_interval_secs` and
//! restarts dead ones with exponential backoff, within a restart policy
//! and a restart budget. This module holds the herd's types and every
//! decision the reconciler makes; running processes, sleeping and
//! persisting state are the caller's.
use vstd::prelude::*;

use crate::keyed::{assoc_insert, KeyedMap, clone_string_map};
use crate::text::{dec, push_dec, string_of};

verus! {

broadcast use vstd::string::group_string_axioms;

/// How often the reconciler checks replica health, in seconds, unless the
/// spec says otherwise.
pub fn default_check_interval() -> (r: u64)
    ensures
        r == 5,
{
    5
}

/// How many restarts a replica gets before it is marked failed, unless the
/// spec says otherwise.
pub fn default_max_restarts() -> (r: u32)
    ensures
        r == 10,
{
    10
}

/// When a replica that exited is restarted.
#[derive(Debug, Clone, Copy, PartialEq, Eq, Structural)]
pub enum RestartPolicy {
    /// Only when it did not exit with status 0.
    OnFailure,
    Always,
    Never,
}

impl Default for RestartPolicy {
    fn default() -> (r: Self)
        ensures
            r == RestartPolicy::OnFailure,
    {
        RestartPolicy::OnFailure
    }
}

/// Desired configuration of a named herd.
#[derive(Debug)]
pub struct HerdSpec {
    pub name: String,
    /// Bucket spec: "node@20", "python@3.11", "local/my-app".
    pub bucket: String,
    /// Command run inside each bucket.
    pub command: Vec<String>,
    /// Environment overrides for each instance.
    pub env: KeyedMap<String>,
    /// Number of desired replicas.
    pub replicas: u32,
    /// Optional buck-net shared by all replicas.
    pub net: Option<String>,
    /// How often the reconciler checks instance health (seconds).
    pub check_interval_secs: u64,
    pub restart: RestartPolicy,
    /// Restarts before an instance is marked permanently failed.
    pub max_restarts: u32,
}

impl HerdSpec {
    /// A spec with the default check interval, restart policy and restart
    /// budget.
    pub fn with_defaults(
        name: String,
        bucket: String,
        command: Vec<String>,
        env: KeyedMap<String>,
        replicas: u32,
        net: Option<String>,
    ) -> (r: HerdSpec)
        ensures
            r.name == name,
            r.bucket == bucket,
            r.command == command,
            r.env == env,
            r.replicas == replicas,
            r.net == net,
            r.check_interval_secs == 5,
            r.restart == RestartPolicy::OnFailure,
            r.max_restarts == 10,
    {
        HerdSpec {
            name,
            bucket,
            command,
            env,
            replicas,
            net,
            check_interval_secs: default_check_interval(),
            restart: RestartPolicy::default(),
            max_restarts: default_max_restarts(),
        }
    }
}

#[derive(Debug, Clone, Copy, PartialEq, Eq, Structural)]
pub enum InstanceStatus {
    Running,
    Restarting,
    Failed,
    Stopped,
}

/// Snapshot of one replica's runtime state.
#[derive(Debug, Clone, Copy, PartialEq, Eq, Structural)]
pub struct InstanceState {
    pub index: u32,
    pub pid: Option<u32>,
    pub status: InstanceStatus,
    pub restart_count: u32,
    pub last_exit_code: Option<i32>,
}

/// Persisted herd state.
#[derive(Debug)]
pub struct HerdState {
    pub spec: HerdSpec,
    pub instances: Vec<InstanceState>,
}

/// Info about a persisted herd.
#[derive(Debug)]
pub struct HerdInfo {
    pub name: String,
    pub bucket: String,
    pub replicas: u32,
    pub net: Option<String>,
    pub instances: Vec<InstanceState>,
}

impl HerdInfo {
    /// What a listing shows of a persisted herd.
    pub fn from_state(state: HerdState) -> (r: HerdInfo)
        ensures
            r.name == state.spec.name,
            r.bucket == state.spec.bucket,
            r.replicas == state.spec.replicas,
            r.net == state.spec.net,
            r.instances == state.instances,
    {
        let HerdState { spec, instances } = state;
        HerdInfo {
            name: spec.name,
            bucket: spec.bucket,
            replicas: spec.replicas,
            net: spec.net,
            instances,
        }
    }
}

// ── The reconciler ───────────────────────────────────────────────────

/// The reconciler's record of a live replica slot.
#[derive(Debug, Clone, Copy, PartialEq, Eq, Structural)]
pub struct ReplicaEntry {
    pub pid: u32,
    pub restart_count: u32,
    /// The wait before the next restart, in seconds.
    pub backoff_secs: u64,
    pub status: InstanceStatus,
}

/// The longest wait between restarts, in seconds.
pub open spec fn max_backoff() -> u64 {
    60
}

/// A replica slot's record right after its process was spawned.
pub open spec fn fresh_entry(pid: u32) -> ReplicaEntry {
    ReplicaEntry { pid, restart_count: 0, backoff_secs: 1, status: InstanceStatus::Running }
}

/// The record of a replica whose process was just spawned (first start).
pub fn fresh_replica(pid: u32) -> (r: ReplicaEntry)
    ensures
        r == fresh_entry(pid),
{
    ReplicaEntry { pid, restart_count: 0, backoff_secs: 1, status: InstanceStatus::Running }
}

/// What the reconciler saw of a replica slot.
#[derive(Debug, Clone, Copy, PartialEq, Eq, Structural)]
pub enum Observation {
    /// The slot has no process.
    Missing,
    /// Its process is still running.
    Alive,
    /// Its process exited, with this exit code if it had one.
    Exited(Option<i32>),
}

/// What the caller does next for a replica slot.
#[derive(Debug, Clone, Copy, PartialEq, Eq, Structural)]
pub enum ReplicaAction {
    Nothing,
    /// Spawn a first process for the empty slot.
    Spawn,
    /// The replica is given up on.
    GiveUp,
    /// Wait this many seconds, then spawn it again.
    Restart { wait_secs: u64 },
}

/// Whether `policy` restarts a process that exited with `code`.
pub open spec fn should_restart(policy: RestartPolicy, code: Option<i32>) -> bool {
    match policy {
        RestartPolicy::Never => false,
        RestartPolicy::Always => true,
        RestartPolicy::OnFailure => code != Some(0i32),
    }
}

pub open spec fn min_u64(a: int, b: int) -> int {
    if a < b {
        a
    } else {
        b
    }
}

/// One reconciler step for one replica slot: the slot's new record and
/// the action to take.
pub open spec fn reconcile_spec(
    policy: RestartPolicy,
    max_restarts: u32,
    entry: Option<ReplicaEntry>,
    obs: Observation,
) -> (Option<ReplicaEntry>, ReplicaAction) {
    match entry {
        None => if policy != RestartPolicy::Never {
            (None, ReplicaAction::Spawn)
        } else {
            (None, ReplicaAction::Nothing)
        },
        Some(e) => match obs {
            Observation::Exited(code) => if !should_restart(policy, code) || e.restart_count
                >= max_restarts {
                (Some(ReplicaEntry { status: InstanceStatus::Failed, ..e }), ReplicaAction::GiveUp)
            } else {
                (
                    Some(
                        ReplicaEntry {
                            restart_count: (e.restart_count + 1) as u32,
                            backoff_secs: min_u64(e.backoff_secs * 2, max_backoff() as int) as u64,
                            status: InstanceStatus::Restarting,
                            ..e
                        },
                    ),
                    ReplicaAction::Restart { wait_secs: e.backoff_secs },
                )
            },
            _ => (Some(ReplicaEntry { status: InstanceStatus::Running, ..e }), ReplicaAction::Nothing),
        },
    }
}

/// Decide what to do about a replica slot, given its record (`None` when
/// the slot has no process) and what was observed of it: an empty slot is
/// filled unless the policy is `Never`; a running replica is marked
/// running; an exited one is restarted after its backoff (which then
/// doubles, up to 60 s) while the policy wants it and its restart budget
/// lasts, and is otherwise marked failed.
pub fn reconcile_replica(
    policy: RestartPolicy,
    max_restarts: u32,
    entry: Option<ReplicaEntry>,
    obs: Observation,
) -> (r: (Option<ReplicaEntry>, ReplicaAction))
    requires
        entry matches Some(e) ==> e.backoff_secs * 2 <= u64::MAX,
    ensures
        r == reconcile_spec(policy, max_restarts, entry, obs),
{
    match entry {
        None => {
            if policy != RestartPolicy::Never {
                (None, ReplicaAction::Spawn)
            } else {
                (None, ReplicaAction::Nothing)
            }
        },
        Some(e) => match obs {
            Observation::Exited(code) => {
                let restart = match policy {
                    RestartPolicy::Never => false,
                    RestartPolicy::Always => true,
                    RestartPolicy::OnFailure => !(code == Some(0i32)),
                };
                if !restart || e.restart_count >= max_restarts {
                    (Some(ReplicaEntry { status: InstanceStatus::Failed, ..e }), ReplicaAction::GiveUp)
                } else {
                    let doubled = e.backoff_secs * 2;
                    let next = if doubled < 60 {
                        doubled
                    } else {
                        60
                    };
                    (
                        Some(
                            ReplicaEntry {
                                restart_count: e.restart_count + 1,
                                backoff_secs: next,
                                status: InstanceStatus::Restarting,
                                ..e
                            },
                        ),
                        ReplicaAction::Restart { wait_secs: e.backoff_secs },
                    )
                }
            },
            _ => (Some(ReplicaEntry { status: InstanceStatus::Running, ..e }), ReplicaAction::Nothing),
        },
    }
}

/// The record after a restart's new process started (`pid`): running
/// again, with its restart count and backoff kept.
pub fn restarted(entry: ReplicaEntry, pid: u32) -> (r: ReplicaEntry)
    ensures
        r == (ReplicaEntry { pid, status: InstanceStatus::Running, ..entry }),
{
    ReplicaEntry { pid, status: InstanceStatus::Running, ..entry }
}

/// A replica record as the reconciler keeps it: a backoff between 1 and
/// 60 seconds.
pub open spec fn entry_wf(e: ReplicaEntry) -> bool {
    1 <= e.backoff_secs <= max_backoff()
}

/// Every record the reconciler makes from a well-formed one is
/// well-formed again: the backoff stays between 1 and 60 seconds, and the
/// restart count never passes the restart budget.
pub proof fn lemma_reconcile_keeps_bounds(
    policy: RestartPolicy,
    max_restarts: u32,
    e: ReplicaEntry,
    obs: Observation,
)
    requires
        entry_wf(e),
        e.restart_count <= max_restarts,
    ensures
        ({
            let (n, _) = reconcile_spec(policy, max_restarts, Some(e), obs);
            &&& n matches Some(ne)
            &&& entry_wf(ne)
            &&& ne.restart_count <= max_restarts
            &&& ne.pid == e.pid
        }),
{
}

/// A fresh record is well-formed, and stays so after a restart.
pub proof fn lemma_fresh_and_restarted_wf(e: ReplicaEntry, pid: u32)
    ensures
        entry_wf(fresh_entry(pid)),
        entry_wf(e) ==> entry_wf(ReplicaEntry { pid, status: InstanceStatus::Running, ..e }),
{
}

/// Under `Never`, the reconciler never starts a process.
pub proof fn lemma_never_policy_starts_nothing(
    max_restarts: u32,
    entry: Option<ReplicaEntry>,
    obs: Observation,
)
    ensures
        ({
            let (_, a) = reconcile_spec(RestartPolicy::Never, max_restarts, entry, obs);
            a == ReplicaAction::Nothing || a == ReplicaAction::GiveUp
        }),
{
}

/// Under `OnFailure`, a replica that exited cleanly is given up on, not
/// restarted.
pub proof fn lemma_clean_exit_not_restarted(max_restarts: u32, e: ReplicaEntry)
    ensures
        reconcile_spec(
            RestartPolicy::OnFailure,
            max_restarts,
            Some(e),
            Observation::Exited(Some(0i32)),
        ).1 == ReplicaAction::GiveUp,
{
}

/// What becomes of a replica whose process exited: under `Always` any
/// exit, and under `OnFailure` any exit but a clean one (exit code 0; an
/// exit without a code counts as a failure), is restarted while the
/// restart budget lasts: the restart waits the current backoff, counts
/// once, doubles the backoff (at most 60 s) and keeps the pid until the new
/// process starts. Once the budget is spent, or when the policy does not
/// restart this exit, the replica is given up on and marked failed, with
/// its count and backoff kept.
pub proof fn lemma_exit_restarts_within_budget(
    policy: RestartPolicy,
    max_restarts: u32,
    e: ReplicaEntry,
    code: Option<i32>,
)
    ensures
        ({
            let (n, a) = reconcile_spec(policy, max_restarts, Some(e), Observation::Exited(code));
            let wants = policy == RestartPolicy::Always || (policy == RestartPolicy::OnFailure
                && code != Some(0i32));
            &&& wants && e.restart_count < max_restarts ==> {
                &&& a == ReplicaAction::Restart { wait_secs: e.backoff_secs }
                &&& n matches Some(ne)
                &&& ne.restart_count == e.restart_count + 1
                &&& ne.backoff_secs == (if e.backoff_secs * 2 < 60 {
                    e.backoff_secs * 2
                } else {
                    60
                })
                &&& ne.status == InstanceStatus::Restarting
                &&& ne.pid == e.pid
            }
            &&& !(wants && e.restart_count < max_restarts) ==> {
                &&& a == ReplicaAction::GiveUp
                &&& n == Some(ReplicaEntry { status: InstanceStatus::Failed, ..e })
            }
        }),
{
}

/// A replica seen running is left alone and marked running; an empty slot
/// is filled unless the policy is `Never`.
pub proof fn lemma_alive_and_empty_slots(policy: RestartPolicy, max_restarts: u32, e: ReplicaEntry)
    ensures
        reconcile_spec(policy, max_restarts, Some(e), Observation::Alive) == (
            Some(ReplicaEntry { status: InstanceStatus::Running, ..e }),
            ReplicaAction::Nothing,
        ),
        reconcile_spec(policy, max_restarts, None, Observation::Missing).1 == if policy
            == RestartPolicy::Never {
            ReplicaAction::Nothing
        } else {
            ReplicaAction::Spawn
        },
{
}

/// The backoff after `k` restarts from a fresh record: doubled each time,
/// never above 60 seconds.
pub open spec fn backoff_after(k: nat) -> int
    decreases k,
{
    if k == 0 {
        1
    } else {
        min_u64(backoff_after((k - 1) as nat) * 2, 60)
    }
}

/// `k` exits in a row, each restarted, starting from record `e`.
pub open spec fn after_restarts(
    policy: RestartPolicy,
    max_restarts: u32,
    e: ReplicaEntry,
    k: nat,
) -> ReplicaEntry
    decreases k,
{
    if k == 0 {
        e
    } else {
        let prev = after_restarts(policy, max_restarts, e, (k - 1) as nat);
        match reconcile_spec(policy, max_restarts, Some(prev), Observation::Exited(None)).0 {
            Some(n) => ReplicaEntry { status: InstanceStatus::Running, ..n },
            None => prev,
        }
    }
}

/// Exponential backoff: while the restart budget lasts, a replica that
/// keeps dying is restarted `k` times with its backoff at `min(2^k, 60)`
/// seconds and its restart count at `k`.
pub proof fn lemma_backoff_doubles(policy: RestartPolicy, max_restarts: u32, pid: u32, k: nat)
    requires
        policy != RestartPolicy::Never,
        k <= max_restarts,
    ensures
        after_restarts(policy, max_restarts, fresh_entry(pid), k).backoff_secs == backoff_after(k),
        after_restarts(policy, max_restarts, fresh_entry(pid), k).restart_count == k,
        1 <= backoff_after(k) <= 60,
    decreases k,
{
    if k > 0 {
        lemma_backoff_doubles(policy, max_restarts, pid, (k - 1) as nat);
    }
}

// ── Snapshots ────────────────────────────────────────────────────────

/// What a snapshot reports of replica `index`: its record, as failed if
/// its process has `exited`; stopped when the slot is empty.
pub open spec fn instance_spec(index: u32, entry: Option<ReplicaEntry>, exited: bool) -> InstanceState {
    match entry {
        Some(e) => InstanceState {
            index,
            pid: Some(e.pid),
            status: if exited {
                InstanceStatus::Failed
            } else {
                e.status
            },
            restart_count: e.restart_count,
            last_exit_code: None,
        },
        None => InstanceState {
            index,
            pid: None,
            status: InstanceStatus::Stopped,
            restart_count: 0,
            last_exit_code: None,
        },
    }
}

/// The state of every replica `0..replicas`, from each slot's record and
/// whether its process has exited.
pub fn instance_states(entries: &Vec<Option<ReplicaEntry>>, exited: &Vec<bool>) -> (r: Vec<
    InstanceState,
>)
    requires
        entries@.len() == exited@.len(),
        entries@.len() <= u32::MAX,
    ensures
        r@.len() == entries@.len(),
        forall|i: int|
            0 <= i < r@.len() ==> #[trigger] r@[i] == instance_spec(i as u32, entries@[i], exited@[i]),
{
    let mut out: Vec<InstanceState> = Vec::new();
    let mut i: usize = 0;
    while i < entries.len()
        invariant
            i <= entries.len(),
            entries@.len() == exited@.len(),
            entries@.len() <= u32::MAX,
            out@.len() == i,
            forall|j: int|
                0 <= j < i ==> #[trigger] out@[j] == instance_spec(j as u32, entries@[j], exited@[j]),
        decreases entries.len() - i,
    {
        let idx = i as u32;
        let s = match entries[i] {
            Some(e) => InstanceState {
                index: idx,
                pid: Some(e.pid),
                status: if exited[i] {
                    InstanceStatus::Failed
                } else {
                    e.status
                },
                restart_count: e.restart_count,
                last_exit_code: None,
            },
            None => InstanceState {
                index: idx,
                pid: None,
                status: InstanceStatus::Stopped,
                restart_count: 0,
                last_exit_code: None,
            },
        };
        out.push(s);
        i += 1;
    }
    out
}

// ── Scaling ──────────────────────────────────────────────────────────

/// Which replica indices to start and which to stop when a herd goes
/// from `current` to `target` replicas: `start_from..start_to` and
/// `stop_from..stop_to`.
#[derive(Debug, Clone, Copy, PartialEq, Eq, Structural)]
pub struct ScalePlan {
    pub start_from: u32,
    pub start_to: u32,
    pub stop_from: u32,
    pub stop_to: u32,
}

/// Scaling up starts the new indices `current..target`; scaling down stops
/// `target..current`; nothing else is touched.
pub fn scale_plan(current: u32, target: u32) -> (r: ScalePlan)
    ensures
        target > current ==> r == (ScalePlan {
            start_from: current,
            start_to: target,
            stop_from: target,
            stop_to: target,
        }),
        target <= current ==> r == (ScalePlan {
            start_from: target,
            start_to: target,
            stop_from: target,
            stop_to: current,
        }),
{
    if target > current {
        ScalePlan { start_from: current, start_to: target, stop_from: target, stop_to: target }
    } else {
        ScalePlan { start_from: target, start_to: target, stop_from: target, stop_to: current }
    }
}

// ── Replica processes ────────────────────────────────────────────────

pub open spec fn replica_args_spec(bucket: Seq<char>, command: Seq<Seq<char>>, net: Option<Seq<char>>) -> Seq<
    Seq<char>,
> {
    seq!["run"@] + match net {
        Some(n) => seq!["--net"@, n],
        None => seq![],
    } + seq![bucket] + if command.len() > 0 {
        seq!["--"@] + command
    } else {
        seq![]
    }
}

pub open spec fn strings_view(v: Seq<String>) -> Seq<Seq<char>> {
    v.map_values(|s: String| s@)
}

/// The arguments to `buckets` that start one replica:
/// `run [--net <net>] <bucket> [-- <command>...]`.
pub fn replica_args(spec: &HerdSpec) -> (r: Vec<String>)
    ensures
        strings_view(r@) == replica_args_spec(
            spec.bucket@,
            strings_view(spec.command@),
            match spec.net {
                Some(n) => Some(n@),
                None => None,
            },
        ),
{
    let mut a: Vec<String> = Vec::new();
    a.push(String::from_str("run"));
    match &spec.net {
        Some(n) => {
            a.push(String::from_str("--net"));
            a.push(n.clone());
        },
        None => {},
    }
    a.push(spec.bucket.clone());
    let ghost head = strings_view(a@);
    if spec.command.len() > 0 {
        a.push(String::from_str("--"));
        let mut i: usize = 0;
        while i < spec.command.len()
            invariant
                i <= spec.command.len(),
                strings_view(a@) == head + seq!["--"@] + strings_view(spec.command@).take(i as int),
            decreases spec.command.len() - i,
        {
            let ghost prev = strings_view(a@);
            let c = spec.command[i].clone();
            let ghost cv = c@;
            a.push(c);
            proof {
                assert(cv == spec.command@[i as int]@);
                assert(strings_view(a@) =~= prev.push(cv));
                assert(strings_view(spec.command@).take(i + 1) =~= strings_view(spec.command@).take(
                    i as int,
                ).push(spec.command@[i as int]@));
                assert(strings_view(a@) =~= head + seq!["--"@] + strings_view(spec.command@).take(
                    i + 1,
                ));
            }
            i += 1;
        }
        proof {
            assert(strings_view(spec.command@).take(spec.command.len() as int) =~= strings_view(
                spec.command@,
            ));
        }
    }
    proof {
        assert(strings_view(a@) =~= replica_args_spec(
            spec.bucket@,
            strings_view(spec.command@),
            match spec.net {
                Some(n) => Some(n@),
                None => None,
            },
        ));
    }
    a
}

/// The environment of replica `index`: the spec's overrides, then
/// `HERD_REPLICA_INDEX` and `HERD_NAME`.
pub fn replica_env(spec: &HerdSpec, index: u32) -> (r: KeyedMap<String>)
    ensures
        r@ == assoc_insert(
            assoc_insert(spec.env@, "HERD_REPLICA_INDEX"@, dec(index as nat)),
            "HERD_NAME"@,
            spec.name@,
        ),
        spec.env.wf() ==> r.wf(),
{
    let mut env = clone_string_map(&spec.env);
    let mut n: Vec<char> = Vec::new();
    push_dec(&mut n, index as u64);
    env.insert(String::from_str("HERD_REPLICA_INDEX"), string_of(&n));
    env.insert(String::from_str("HERD_NAME"), spec.name.clone());
    env
}

/// Why a herd cannot be created.
pub fn already_exists_message(name: &str) -> (r: String)
    ensures
        r@ == "Herd '"@ + name@ + "' already exists — stop it first with 'buckets herd stop "@
            + name@ + "'"@,
{
    let mut out: Vec<char> = Vec::new();
    crate::text::push_str(&mut out, "Herd '");
    crate::text::push_str(&mut out, name);
    crate::text::push_str(&mut out, "' already exists — stop it first with 'buckets herd stop ");
    crate::text::push_str(&mut out, name);
    crate::text::push_str(&mut out, "'");
    string_of(&out)
}

} // verus!
