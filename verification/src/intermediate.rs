//! The stage orchestrator for the intermediate process of the creation
//! pipeline.  From the configuration it computes the exact, ordered
//! sequence of operations the stage must perform — namespace entry, the
//! user-namespace identity-mapping handshake, resource limits, cgroup
//! attachment, the fork of the init stage and the readiness signals — and
//! proves the ordering constraints the design demands.  The driver executes
//! the sequence step by step and aborts the stage at the first failing
//! operation; there are no retries.

use vstd::prelude::*;

use crate::config::{LinuxNamespace, LinuxNamespaceType, LinuxRlimit, Process, Spec};
use crate::namespaces::{dedup_by_kind, first_of_kind, Namespaces};

verus! {

/// One operation of the intermediate stage, in the driver's vocabulary.
#[derive(Clone, Copy, Debug, PartialEq, Eq, Structural)]
pub enum Action {
    /// Enter the namespace of this kind that the configuration requests
    /// (joining it by path, or creating it, as the namespace manager
    /// decides).
    EnterNamespace(LinuxNamespaceType),
    /// Toggle the process's dumpable flag.  It is raised so that the
    /// launcher, outside the new user namespace, may write the identity
    /// maps, and reverted right after the handshake.
    SetDumpable(bool),
    /// Ask the launcher to write the identity mappings.
    SendMappingRequest,
    /// Block until the launcher acknowledges the mappings.
    WaitForMappingAck,
    /// Re-assert root identity inside the new user namespace.
    SetIdRoot,
    /// Apply one resource-limit entry.
    SetRlimit(LinuxRlimit),
    /// Register the process with the cgroup hierarchy and, for an init
    /// start with declared limits, apply them.
    ApplyCgroups,
    /// Fork the init stage.  The child's first duty, before the init stage
    /// runs, is to close the init-link endpoint it does not own
    /// ([`crate::channel::unused_init_endpoint`]).
    ForkInit,
    /// Close the init-link endpoint the parent side does not own: the
    /// sending end ([`crate::channel::unused_init_endpoint`]).
    CloseInitSender,
    /// Block until the init stage signals readiness.
    WaitForInitReady,
    /// Signal this stage's own readiness to the launcher.
    SendIntermediateReady,
}

/// A configuration that cannot start a container.
#[derive(Clone, Copy, Debug, PartialEq, Eq, Structural)]
pub enum ConfigurationError {
    /// The configuration lacks its platform-specific section.
    NoLinux,
    /// The configuration lacks its process section.
    NoProcess,
}

/// The failure category of each operation, for error propagation: a failed
/// stage reports which kind of step failed.
#[derive(Clone, Copy, Debug, PartialEq, Eq, Structural)]
pub enum StageFailureKind {
    /// Entry or creation of this namespace kind failed.
    Namespace(LinuxNamespaceType),
    /// A dumpability toggle or identity re-assertion failed.
    Privilege,
    /// A resource-limit application failed.
    ResourceLimit,
    /// Cgroup registration or limit application failed.
    Cgroup,
    /// A synchronization message was not exchanged.
    Channel,
    /// The process-duplication primitive failed.
    Fork,
}

/// The failure category of an operation.
pub open spec fn failure_kind_spec(a: Action) -> StageFailureKind {
    match a {
        Action::EnterNamespace(k) => StageFailureKind::Namespace(k),
        Action::SetDumpable(_) => StageFailureKind::Privilege,
        Action::SendMappingRequest => StageFailureKind::Channel,
        Action::WaitForMappingAck => StageFailureKind::Channel,
        Action::SetIdRoot => StageFailureKind::Privilege,
        Action::SetRlimit(_) => StageFailureKind::ResourceLimit,
        Action::ApplyCgroups => StageFailureKind::Cgroup,
        Action::ForkInit => StageFailureKind::Fork,
        Action::CloseInitSender => StageFailureKind::Channel,
        Action::WaitForInitReady => StageFailureKind::Channel,
        Action::SendIntermediateReady => StageFailureKind::Channel,
    }
}

/// How a driver classifies the failure of an operation.
pub fn failure_kind(a: Action) -> (k: StageFailureKind)
    ensures
        k == failure_kind_spec(a),
{
    match a {
        Action::EnterNamespace(kind) => StageFailureKind::Namespace(kind),
        Action::SetDumpable(_) => StageFailureKind::Privilege,
        Action::SendMappingRequest => StageFailureKind::Channel,
        Action::WaitForMappingAck => StageFailureKind::Channel,
        Action::SetIdRoot => StageFailureKind::Privilege,
        Action::SetRlimit(_) => StageFailureKind::ResourceLimit,
        Action::ApplyCgroups => StageFailureKind::Cgroup,
        Action::ForkInit => StageFailureKind::Fork,
        Action::CloseInitSender => StageFailureKind::Channel,
        Action::WaitForInitReady => StageFailureKind::Channel,
        Action::SendIntermediateReady => StageFailureKind::Channel,
    }
}

/// The operations owed to a requested user namespace: enter it first, run
/// the identity-mapping handshake when it is newly created (no path to
/// join), and in every case re-assert root identity inside it.
pub open spec fn user_segment(user_ns: Option<LinuxNamespace>) -> Seq<Action> {
    match user_ns {
        None => seq![],
        Some(ns) => if ns.path is Some {
            seq![Action::EnterNamespace(LinuxNamespaceType::User), Action::SetIdRoot]
        } else {
            seq![
                Action::EnterNamespace(LinuxNamespaceType::User),
                Action::SetDumpable(true),
                Action::SendMappingRequest,
                Action::WaitForMappingAck,
                Action::SetDumpable(false),
                Action::SetIdRoot,
            ]
        },
    }
}

/// The resource-limit entries of the process section, in order.
pub open spec fn rlimits_of(p: Process) -> Seq<LinuxRlimit> {
    match p.rlimits {
        None => seq![],
        Some(rlimits) => rlimits@,
    }
}

/// One limit application per entry, in the order declared.
pub open spec fn rlimit_segment(rlimits: Seq<LinuxRlimit>) -> Seq<Action> {
    rlimits.map_values(|r: LinuxRlimit| Action::SetRlimit(r))
}

/// Pid-namespace entry, deliberately last among namespace operations: it
/// affects only the next forked child.
pub open spec fn pid_segment(pid_requested: bool) -> Seq<Action> {
    if pid_requested {
        seq![Action::EnterNamespace(LinuxNamespaceType::Pid)]
    } else {
        seq![]
    }
}

/// Cgroup attachment, skipped entirely for a rootless configuration.
pub open spec fn cgroup_segment(rootless: bool) -> Seq<Action> {
    if rootless {
        seq![]
    } else {
        seq![Action::ApplyCgroups]
    }
}

/// The handoff to the init stage: fork it, close the unused endpoint, wait
/// for its readiness, and only then report readiness upward.
pub open spec fn fork_segment() -> Seq<Action> {
    seq![
        Action::ForkInit,
        Action::CloseInitSender,
        Action::WaitForInitReady,
        Action::SendIntermediateReady,
    ]
}

/// The full, ordered sequence of operations of the intermediate stage, for
/// a configuration whose two required sections are present.  Namespace
/// lookups go through the deduplicated set ([`dedup_by_kind`]), which finds
/// the same first descriptor per kind as the raw list
/// ([`crate::namespaces::lemma_dedup_first_of_kind`]).
pub open spec fn intermediate_plan(spec: Spec, rootless: bool) -> Seq<Action> {
    let requested = dedup_by_kind(spec.linux.unwrap().namespaces@);
    user_segment(first_of_kind(requested, LinuxNamespaceType::User)) + rlimit_segment(
        rlimits_of(spec.process.unwrap()),
    ) + pid_segment(first_of_kind(requested, LinuxNamespaceType::Pid) is Some) + cgroup_segment(
        rootless,
    ) + fork_segment()
}

/// Computes the intermediate stage's operation sequence from the
/// configuration.  A configuration lacking its platform-specific or its
/// process section is rejected before any operation is emitted.  The driver
/// performs the returned operations in order and aborts the stage at the
/// first failure.
#[verifier::rlimit(60)]
pub fn container_intermediate(spec: &Spec, rootless: bool) -> (r: Result<
    Vec<Action>,
    ConfigurationError,
>)
    ensures
        r is Ok <==> spec.linux is Some && spec.process is Some,
        spec.linux is None ==> r == Err::<Vec<Action>, ConfigurationError>(
            ConfigurationError::NoLinux,
        ),
        spec.linux is Some && spec.process is None ==> r == Err::<Vec<Action>, ConfigurationError>(
            ConfigurationError::NoProcess,
        ),
        r matches Ok(plan) ==> plan@ == intermediate_plan(*spec, rootless),
{
    let linux = match &spec.linux {
        Some(linux) => linux,
        None => {
            return Err(ConfigurationError::NoLinux);
        },
    };
    let proc = match &spec.process {
        Some(proc) => proc,
        None => {
            return Err(ConfigurationError::NoProcess);
        },
    };

    let namespaces = Namespaces::from_spec(&linux.namespaces);
    let ghost requested = dedup_by_kind(linux.namespaces@);
    let mut plan: Vec<Action> = Vec::new();

    // User namespace first: identity mapping must be established before
    // any other isolation boundary depends on the mapped identity.
    match namespaces.get(LinuxNamespaceType::User) {
        Some(user_ns) => {
            plan.push(Action::EnterNamespace(LinuxNamespaceType::User));
            if user_ns.path.is_none() {
                plan.push(Action::SetDumpable(true));
                plan.push(Action::SendMappingRequest);
                plan.push(Action::WaitForMappingAck);
                plan.push(Action::SetDumpable(false));
            }
            plan.push(Action::SetIdRoot);
        },
        None => {},
    }
    let ghost seg_user = user_segment(first_of_kind(requested, LinuxNamespaceType::User));
    proof {
        assert(plan@ =~= seg_user);
    }

    // Every resource-limit entry, one at a time.
    match &proc.rlimits {
        Some(rlimits) => {
            let mut i: usize = 0;
            proof {
                assert(rlimits@.take(0).map_values(|r: LinuxRlimit| Action::SetRlimit(r)) =~= Seq::<
                    Action,
                >::empty());
                assert(plan@ =~= seg_user + rlimits@.take(0).map_values(
                    |r: LinuxRlimit| Action::SetRlimit(r),
                ));
            }
            while i < rlimits.len()
                invariant
                    i <= rlimits.len(),
                    plan@ == seg_user + rlimits@.take(i as int).map_values(
                        |r: LinuxRlimit| Action::SetRlimit(r),
                    ),
                decreases rlimits.len() - i,
            {
                plan.push(Action::SetRlimit(rlimits[i]));
                proof {
                    assert(rlimits@.take(i as int + 1) =~= rlimits@.take(i as int).push(
                        rlimits@[i as int],
                    ));
                    assert(rlimits@.take(i as int + 1).map_values(
                        |r: LinuxRlimit| Action::SetRlimit(r),
                    ) =~= rlimits@.take(i as int).map_values(|r: LinuxRlimit| Action::SetRlimit(r))
                        .push(Action::SetRlimit(rlimits@[i as int])));
                    assert(plan@ =~= seg_user + rlimits@.take(i as int + 1).map_values(
                        |r: LinuxRlimit| Action::SetRlimit(r),
                    ));
                }
                i = i + 1;
            }
            proof {
                assert(rlimits@.take(rlimits@.len() as int) =~= rlimits@);
            }
        },
        None => {},
    }
    let ghost seg_rlimit = rlimit_segment(rlimits_of(*proc));
    proof {
        assert(plan@ =~= seg_user + seg_rlimit);
    }

    // Pid namespace now: after limits, before the child it will affect.
    match namespaces.get(LinuxNamespaceType::Pid) {
        Some(_) => {
            plan.push(Action::EnterNamespace(LinuxNamespaceType::Pid));
        },
        None => {},
    }
    let ghost seg_pid = pid_segment(first_of_kind(requested, LinuxNamespaceType::Pid) is Some);
    proof {
        assert(plan@ =~= seg_user + seg_rlimit + seg_pid);
    }

    // Cgroup attachment before the init process exists, so it is born
    // inside the cgroup; not performed at all when rootless.
    if !rootless {
        plan.push(Action::ApplyCgroups);
    }
    let ghost seg_cgroup = cgroup_segment(rootless);
    proof {
        assert(plan@ =~= seg_user + seg_rlimit + seg_pid + seg_cgroup);
    }

    // Hand off to the init stage, bottom-up readiness.
    plan.push(Action::ForkInit);
    plan.push(Action::CloseInitSender);
    plan.push(Action::WaitForInitReady);
    plan.push(Action::SendIntermediateReady);
    proof {
        assert(plan@ =~= seg_user + seg_rlimit + seg_pid + seg_cgroup + fork_segment());
    }

    Ok(plan)
}

/// Whether the configuration makes the stage create a new user namespace
/// (one is requested without a path to join), which is what triggers the
/// identity-mapping handshake and its dumpability toggles.
pub open spec fn creates_user_namespace(spec: Spec) -> bool {
    match first_of_kind(
        dedup_by_kind(spec.linux.unwrap().namespaces@),
        LinuxNamespaceType::User,
    ) {
        Some(ns) => ns.path is None,
        None => false,
    }
}

/// Whether the completed operations of `performed` leave the process
/// dumpable: the value of the last dumpability toggle, with non-dumpable
/// the starting state.
pub open spec fn dumpable_after(performed: Seq<Action>) -> bool
    decreases performed.len(),
{
    if performed.len() == 0 {
        false
    } else {
        match performed.last() {
            Action::SetDumpable(dumpable) => dumpable,
            _ => dumpable_after(performed.drop_last()),
        }
    }
}

/// The cleanup a failing stage owes before it aborts, when the operation
/// at position `failed` could not be performed (everything before it
/// completed, the failed operation itself did not): a stage must never
/// exit leaving the process dumpable, so exactly when the completed prefix
/// raised dumpability — a failure during the mapping handshake — the
/// cleanup reverts it.
pub fn failure_cleanup(plan: &Vec<Action>, failed: usize) -> (r: Vec<Action>)
    requires
        failed <= plan@.len(),
    ensures
        dumpable_after(plan@.take(failed as int)) ==> r@ == seq![Action::SetDumpable(false)],
        !dumpable_after(plan@.take(failed as int)) ==> r@ == Seq::<Action>::empty(),
{
    let mut i: usize = failed;
    while i > 0
        invariant
            i <= failed <= plan@.len(),
            dumpable_after(plan@.take(failed as int)) == dumpable_after(plan@.take(i as int)),
        decreases i,
    {
        proof {
            assert(plan@.take(i as int).last() == plan@[i as int - 1]);
            assert(plan@.take(i as int).drop_last() =~= plan@.take(i as int - 1));
        }
        match plan[i - 1] {
            Action::SetDumpable(dumpable) => {
                if dumpable {
                    let mut cleanup: Vec<Action> = Vec::new();
                    cleanup.push(Action::SetDumpable(false));
                    proof {
                        assert(cleanup@ =~= seq![Action::SetDumpable(false)]);
                    }
                    return cleanup;
                } else {
                    let cleanup: Vec<Action> = Vec::new();
                    proof {
                        assert(cleanup@ =~= Seq::<Action>::empty());
                    }
                    return cleanup;
                }
            },
            _ => {},
        }
        i = i - 1;
    }
    proof {
        assert(plan@.take(0) =~= Seq::<Action>::empty());
    }
    Vec::new()
}

/// The position of an operation in the stage's strict order of phases:
/// user-namespace work and the mapping handshake; resource limits;
/// pid-namespace entry; cgroup attachment; then the handoff steps one by
/// one.
pub open spec fn action_phase(a: Action) -> int {
    match a {
        Action::EnterNamespace(k) => if k == LinuxNamespaceType::User {
            0
        } else {
            2
        },
        Action::SetDumpable(_) => 0,
        Action::SendMappingRequest => 0,
        Action::WaitForMappingAck => 0,
        Action::SetIdRoot => 0,
        Action::SetRlimit(_) => 1,
        Action::ApplyCgroups => 3,
        Action::ForkInit => 4,
        Action::CloseInitSender => 5,
        Action::WaitForInitReady => 6,
        Action::SendIntermediateReady => 7,
    }
}

proof fn lemma_user_segment_phases(user_ns: Option<LinuxNamespace>)
    ensures
        forall|k: int|
            0 <= k < user_segment(user_ns).len() ==> #[trigger] action_phase(
                user_segment(user_ns)[k],
            ) == 0,
{
    let s = user_segment(user_ns);
    assert forall|k: int| 0 <= k < s.len() implies #[trigger] action_phase(s[k]) == 0 by {
        match user_ns {
            None => {},
            Some(ns) => {
                if ns.path is Some {
                    assert(action_phase(s[0]) == 0);
                    assert(action_phase(s[1]) == 0);
                } else {
                    assert(action_phase(s[0]) == 0);
                    assert(action_phase(s[1]) == 0);
                    assert(action_phase(s[2]) == 0);
                    assert(action_phase(s[3]) == 0);
                    assert(action_phase(s[4]) == 0);
                    assert(action_phase(s[5]) == 0);
                }
            },
        }
    }
}

proof fn lemma_fork_segment_phases()
    ensures
        forall|k: int|
            0 <= k < fork_segment().len() ==> #[trigger] action_phase(fork_segment()[k]) == 4 + k,
{
    let s = fork_segment();
    assert forall|k: int| 0 <= k < s.len() implies #[trigger] action_phase(s[k]) == 4 + k by {
        assert(action_phase(s[0]) == 4);
        assert(action_phase(s[1]) == 5);
        assert(action_phase(s[2]) == 6);
        assert(action_phase(s[3]) == 7);
    }
}

/// The stage's operations come in nondecreasing phase order: all
/// user-namespace and handshake work strictly precedes all resource-limit
/// work, which precedes pid-namespace entry, which precedes cgroup
/// attachment, which precedes the handoff, whose four steps come in their
/// own fixed order.
pub proof fn lemma_plan_phase_monotone(spec: Spec, rootless: bool)
    requires
        spec.linux is Some,
        spec.process is Some,
    ensures
        forall|i: int, j: int|
            0 <= i < j < intermediate_plan(spec, rootless).len() ==> action_phase(
                #[trigger] intermediate_plan(spec, rootless)[i],
            ) <= action_phase(#[trigger] intermediate_plan(spec, rootless)[j]),
{
    let plan = intermediate_plan(spec, rootless);
    let requested = dedup_by_kind(spec.linux.unwrap().namespaces@);
    let a = user_segment(first_of_kind(requested, LinuxNamespaceType::User));
    let b = rlimit_segment(rlimits_of(spec.process.unwrap()));
    let c = pid_segment(first_of_kind(requested, LinuxNamespaceType::Pid) is Some);
    let d = cgroup_segment(rootless);
    let e = fork_segment();
    lemma_user_segment_phases(first_of_kind(requested, LinuxNamespaceType::User));
    lemma_fork_segment_phases();
    assert(plan == a + b + c + d + e);
    assert forall|i: int, j: int| 0 <= i < j < plan.len() implies action_phase(
        #[trigger] plan[i],
    ) <= action_phase(#[trigger] plan[j]) by {
        lemma_plan_index_phase(spec, rootless, i);
        lemma_plan_index_phase(spec, rootless, j);
    }
}

/// The phase at each position of the plan, segment by segment.
proof fn lemma_plan_index_phase(spec: Spec, rootless: bool, i: int)
    requires
        spec.linux is Some,
        spec.process is Some,
        0 <= i < intermediate_plan(spec, rootless).len(),
    ensures
        phase_bounds(spec, rootless, i),
{
    let plan = intermediate_plan(spec, rootless);
    let requested = dedup_by_kind(spec.linux.unwrap().namespaces@);
    let a = user_segment(first_of_kind(requested, LinuxNamespaceType::User));
    let b = rlimit_segment(rlimits_of(spec.process.unwrap()));
    let c = pid_segment(first_of_kind(requested, LinuxNamespaceType::Pid) is Some);
    let d = cgroup_segment(rootless);
    let e = fork_segment();
    lemma_user_segment_phases(first_of_kind(requested, LinuxNamespaceType::User));
    lemma_fork_segment_phases();
    let al = a.len() as int;
    let bl = b.len() as int;
    let cl = c.len() as int;
    let dl = d.len() as int;
    if i < al {
        assert(plan[i] == a[i]);
    } else if i < al + bl {
        assert(plan[i] == b[i - al]);
        assert(b[i - al] == Action::SetRlimit(rlimits_of(spec.process.unwrap())[i - al]));
    } else if i < al + bl + cl {
        assert(plan[i] == c[i - al - bl]);
        assert(c == seq![Action::EnterNamespace(LinuxNamespaceType::Pid)]);
    } else if i < al + bl + cl + dl {
        assert(plan[i] == d[i - al - bl - cl]);
        assert(d == seq![Action::ApplyCgroups]);
    } else {
        assert(plan[i] == e[i - al - bl - cl - dl]);
    }
}

/// The phase at position `i`: zero through the user segment, then the
/// later phases in step with the later segments, and within the handoff
/// exactly its offset.
pub open spec fn phase_bounds(spec: Spec, rootless: bool, i: int) -> bool {
    let plan = intermediate_plan(spec, rootless);
    let requested = dedup_by_kind(spec.linux.unwrap().namespaces@);
    let a = user_segment(first_of_kind(requested, LinuxNamespaceType::User));
    let b = rlimit_segment(rlimits_of(spec.process.unwrap()));
    let c = pid_segment(first_of_kind(requested, LinuxNamespaceType::Pid) is Some);
    let d = cgroup_segment(rootless);
    let al = a.len() as int;
    let bl = b.len() as int;
    let cl = c.len() as int;
    let dl = d.len() as int;
    &&& (i < al ==> action_phase(plan[i]) == 0)
    &&& (al <= i < al + bl ==> action_phase(plan[i]) == 1)
    &&& (al + bl <= i < al + bl + cl ==> action_phase(plan[i]) == 2)
    &&& (al + bl + cl <= i < al + bl + cl + dl ==> action_phase(plan[i]) == 3)
    &&& (al + bl + cl + dl <= i ==> action_phase(plan[i]) == 4 + (i - al - bl - cl - dl))
}

/// The dumpability toggles sit exactly around the mapping handshake: the
/// raise directly before the mapping request, the revert directly after
/// the acknowledgment, and only when a new user namespace is created.
proof fn lemma_set_dumpable_positions(spec: Spec, rootless: bool, i: int)
    requires
        spec.linux is Some,
        spec.process is Some,
        0 <= i < intermediate_plan(spec, rootless).len(),
    ensures
        (intermediate_plan(spec, rootless)[i] == Action::SetDumpable(true)) <==> (
        creates_user_namespace(spec) && i == 1),
        (intermediate_plan(spec, rootless)[i] == Action::SetDumpable(false)) <==> (
        creates_user_namespace(spec) && i == 4),
{
    let plan = intermediate_plan(spec, rootless);
    let requested = dedup_by_kind(spec.linux.unwrap().namespaces@);
    let user_ns = first_of_kind(requested, LinuxNamespaceType::User);
    let a = user_segment(user_ns);
    lemma_plan_index_phase(spec, rootless, i);
    if i < a.len() {
        assert(plan[i] == a[i]);
        match user_ns {
            None => {},
            Some(ns) => {
                if ns.path is Some {
                    assert(a[0] == Action::EnterNamespace(LinuxNamespaceType::User));
                    assert(a[1] == Action::SetIdRoot);
                } else {
                    assert(a[0] == Action::EnterNamespace(LinuxNamespaceType::User));
                    assert(a[1] == Action::SetDumpable(true));
                    assert(a[2] == Action::SendMappingRequest);
                    assert(a[3] == Action::WaitForMappingAck);
                    assert(a[4] == Action::SetDumpable(false));
                    assert(a[5] == Action::SetIdRoot);
                }
            },
        }
    } else {
        // Beyond the user segment every operation has a later phase, and
        // both toggles have phase zero.
        assert(action_phase(plan[i]) >= 1);
    }
}

/// The process is dumpable exactly while the mapping handshake is in
/// flight: after completing the first `f` operations of the plan, the
/// dumpable flag is raised if and only if a new user namespace is being
/// created and `f` lies between the raise and the completed revert.  A
/// failure anywhere in that window therefore owes the revert, which
/// [`failure_cleanup`] yields.
pub proof fn lemma_dumpable_only_during_handshake(spec: Spec, rootless: bool, f: int)
    requires
        spec.linux is Some,
        spec.process is Some,
        0 <= f <= intermediate_plan(spec, rootless).len(),
    ensures
        dumpable_after(intermediate_plan(spec, rootless).take(f)) <==> (creates_user_namespace(
            spec,
        ) && 2 <= f <= 4),
    decreases f,
{
    let plan = intermediate_plan(spec, rootless);
    if f == 0 {
        assert(plan.take(0) =~= Seq::<Action>::empty());
    } else {
        lemma_dumpable_only_during_handshake(spec, rootless, f - 1);
        lemma_set_dumpable_positions(spec, rootless, f - 1);
        let prefix = plan.take(f);
        assert(prefix.last() == plan[f - 1]);
        assert(prefix.drop_last() =~= plan.take(f - 1));
    }
}

/// Namespace ordering: whenever the plan enters both the user and the pid
/// namespace, the user-namespace entry comes strictly first.
pub proof fn lemma_user_namespace_before_pid(spec: Spec, rootless: bool)
    requires
        spec.linux is Some,
        spec.process is Some,
    ensures
        forall|i: int, j: int|
            {
                &&& 0 <= i < intermediate_plan(spec, rootless).len()
                &&& 0 <= j < intermediate_plan(spec, rootless).len()
                &&& #[trigger] intermediate_plan(spec, rootless)[i] == Action::EnterNamespace(
                    LinuxNamespaceType::User,
                )
                &&& #[trigger] intermediate_plan(spec, rootless)[j] == Action::EnterNamespace(
                    LinuxNamespaceType::Pid,
                )
            } ==> i < j,
{
    lemma_plan_phase_monotone(spec, rootless);
    let plan = intermediate_plan(spec, rootless);
    assert forall|i: int, j: int|
        {
            &&& 0 <= i < plan.len()
            &&& 0 <= j < plan.len()
            &&& #[trigger] plan[i] == Action::EnterNamespace(LinuxNamespaceType::User)
            &&& #[trigger] plan[j] == Action::EnterNamespace(LinuxNamespaceType::Pid)
        } implies i < j by {
        assert(action_phase(plan[i]) == 0);
        assert(action_phase(plan[j]) == 2);
    }
}

/// Mapping handshake ordering: the wait for the mapping acknowledgment
/// strictly precedes every resource-limit operation and the cgroup
/// attachment.
pub proof fn lemma_mapping_ack_before_limits(spec: Spec, rootless: bool)
    requires
        spec.linux is Some,
        spec.process is Some,
    ensures
        forall|i: int, j: int|
            {
                &&& 0 <= i < intermediate_plan(spec, rootless).len()
                &&& 0 <= j < intermediate_plan(spec, rootless).len()
                &&& #[trigger] intermediate_plan(spec, rootless)[i] == Action::WaitForMappingAck
                &&& (intermediate_plan(spec, rootless)[j] matches Action::SetRlimit(_)
                    || #[trigger] intermediate_plan(spec, rootless)[j] == Action::ApplyCgroups)
            } ==> i < j,
{
    lemma_plan_phase_monotone(spec, rootless);
    let plan = intermediate_plan(spec, rootless);
    assert forall|i: int, j: int|
        {
            &&& 0 <= i < plan.len()
            &&& 0 <= j < plan.len()
            &&& #[trigger] plan[i] == Action::WaitForMappingAck
            &&& (plan[j] matches Action::SetRlimit(_) || #[trigger] plan[j]
                == Action::ApplyCgroups)
        } implies i < j by {
        assert(action_phase(plan[i]) == 0);
        assert(action_phase(plan[j]) == 1 || action_phase(plan[j]) == 3);
    }
}

/// User-namespace entry strictly precedes every resource-limit
/// application: limits are set by the identity mapped inside the new
/// namespace.
pub proof fn lemma_user_namespace_before_rlimits(spec: Spec, rootless: bool)
    requires
        spec.linux is Some,
        spec.process is Some,
    ensures
        forall|i: int, j: int|
            {
                &&& 0 <= i < intermediate_plan(spec, rootless).len()
                &&& 0 <= j < intermediate_plan(spec, rootless).len()
                &&& #[trigger] intermediate_plan(spec, rootless)[i] == Action::EnterNamespace(
                    LinuxNamespaceType::User,
                )
                &&& #[trigger] intermediate_plan(spec, rootless)[j] matches Action::SetRlimit(_)
            } ==> i < j,
{
    lemma_plan_phase_monotone(spec, rootless);
    let plan = intermediate_plan(spec, rootless);
    assert forall|i: int, j: int|
        {
            &&& 0 <= i < plan.len()
            &&& 0 <= j < plan.len()
            &&& #[trigger] plan[i] == Action::EnterNamespace(LinuxNamespaceType::User)
            &&& #[trigger] plan[j] matches Action::SetRlimit(_)
        } implies i < j by {
        assert(action_phase(plan[i]) == 0);
        assert(action_phase(plan[j]) == 1);
    }
}

/// The mapping-acknowledgment wait strictly gates the re-assertion of root
/// identity inside a new user namespace.
pub proof fn lemma_mapping_ack_before_set_id(spec: Spec, rootless: bool)
    requires
        spec.linux is Some,
        spec.process is Some,
    ensures
        forall|i: int, j: int|
            {
                &&& 0 <= i < intermediate_plan(spec, rootless).len()
                &&& 0 <= j < intermediate_plan(spec, rootless).len()
                &&& #[trigger] intermediate_plan(spec, rootless)[i] == Action::WaitForMappingAck
                &&& #[trigger] intermediate_plan(spec, rootless)[j] == Action::SetIdRoot
            } ==> i < j,
{
    let plan = intermediate_plan(spec, rootless);
    let requested = dedup_by_kind(spec.linux.unwrap().namespaces@);
    let user_ns = first_of_kind(requested, LinuxNamespaceType::User);
    let a = user_segment(user_ns);
    assert forall|i: int, j: int|
        {
            &&& 0 <= i < plan.len()
            &&& 0 <= j < plan.len()
            &&& #[trigger] plan[i] == Action::WaitForMappingAck
            &&& #[trigger] plan[j] == Action::SetIdRoot
        } implies i < j by {
        lemma_plan_index_phase(spec, rootless, i);
        lemma_plan_index_phase(spec, rootless, j);
        assert(action_phase(plan[i]) == 0);
        assert(action_phase(plan[j]) == 0);
        assert(i < a.len());
        assert(j < a.len());
        assert(plan[i] == a[i]);
        assert(plan[j] == a[j]);
        match user_ns {
            None => {},
            Some(ns) => {
                if ns.path is None {
                    assert(a[0] == Action::EnterNamespace(LinuxNamespaceType::User));
                    assert(a[1] == Action::SetDumpable(true));
                    assert(a[2] == Action::SendMappingRequest);
                    assert(a[3] == Action::WaitForMappingAck);
                    assert(a[4] == Action::SetDumpable(false));
                    assert(a[5] == Action::SetIdRoot);
                    assert(i == 3);
                    assert(j == 5);
                } else {
                    assert(a[0] == Action::EnterNamespace(LinuxNamespaceType::User));
                    assert(a[1] == Action::SetIdRoot);
                }
            },
        }
    }
}

/// Creating a new user namespace (one requested without a path to join)
/// always puts the wait for the mapping acknowledgment into the plan.
pub proof fn lemma_new_user_namespace_waits_for_ack(spec: Spec, rootless: bool)
    requires
        spec.linux is Some,
        spec.process is Some,
        first_of_kind(dedup_by_kind(spec.linux.unwrap().namespaces@), LinuxNamespaceType::User)
            matches Some(ns) && ns.path is None,
    ensures
        exists|i: int|
            0 <= i < intermediate_plan(spec, rootless).len() && intermediate_plan(spec, rootless)[i]
                == Action::WaitForMappingAck,
{
    let plan = intermediate_plan(spec, rootless);
    let requested = dedup_by_kind(spec.linux.unwrap().namespaces@);
    let a = user_segment(first_of_kind(requested, LinuxNamespaceType::User));
    assert(a[3] == Action::WaitForMappingAck);
    assert(plan[3] == a[3]);
}

/// Cgroup attachment strictly precedes the fork of the init stage: the
/// init process is born already inside the cgroup.
pub proof fn lemma_cgroups_before_fork(spec: Spec, rootless: bool)
    requires
        spec.linux is Some,
        spec.process is Some,
    ensures
        forall|i: int, j: int|
            {
                &&& 0 <= i < intermediate_plan(spec, rootless).len()
                &&& 0 <= j < intermediate_plan(spec, rootless).len()
                &&& #[trigger] intermediate_plan(spec, rootless)[i] == Action::ApplyCgroups
                &&& #[trigger] intermediate_plan(spec, rootless)[j] == Action::ForkInit
            } ==> i < j,
{
    lemma_plan_phase_monotone(spec, rootless);
    let plan = intermediate_plan(spec, rootless);
    assert forall|i: int, j: int|
        {
            &&& 0 <= i < plan.len()
            &&& 0 <= j < plan.len()
            &&& #[trigger] plan[i] == Action::ApplyCgroups
            &&& #[trigger] plan[j] == Action::ForkInit
        } implies i < j by {
        assert(action_phase(plan[i]) == 3);
        assert(action_phase(plan[j]) == 4);
    }
}

/// Bottom-up readiness: the stage waits for the init stage's readiness
/// strictly before it reports its own readiness upward.
pub proof fn lemma_init_ready_before_intermediate_ready(spec: Spec, rootless: bool)
    requires
        spec.linux is Some,
        spec.process is Some,
    ensures
        forall|i: int, j: int|
            {
                &&& 0 <= i < intermediate_plan(spec, rootless).len()
                &&& 0 <= j < intermediate_plan(spec, rootless).len()
                &&& #[trigger] intermediate_plan(spec, rootless)[i] == Action::WaitForInitReady
                &&& #[trigger] intermediate_plan(spec, rootless)[j]
                    == Action::SendIntermediateReady
            } ==> i < j,
{
    lemma_plan_phase_monotone(spec, rootless);
    let plan = intermediate_plan(spec, rootless);
    assert forall|i: int, j: int|
        {
            &&& 0 <= i < plan.len()
            &&& 0 <= j < plan.len()
            &&& #[trigger] plan[i] == Action::WaitForInitReady
            &&& #[trigger] plan[j] == Action::SendIntermediateReady
        } implies i < j by {
        assert(action_phase(plan[i]) == 6);
        assert(action_phase(plan[j]) == 7);
    }
}

} // verus!

