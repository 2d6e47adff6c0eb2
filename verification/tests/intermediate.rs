//! Behaviour of the intermediate-stage orchestrator: the operation
//! sequence it computes from a configuration.

use youki::config::{
    Linux, LinuxNamespace, LinuxNamespaceType, LinuxResources, LinuxRlimit, LinuxRlimitType,
    Process, Spec,
};
use youki::intermediate::{container_intermediate, Action, ConfigurationError, StageFailureKind};
use youki::intermediate::{failure_cleanup, failure_kind};

fn ns(typ: LinuxNamespaceType, path: Option<&str>) -> LinuxNamespace {
    LinuxNamespace { typ, path: path.map(|p| p.to_string()) }
}

fn spec_with(namespaces: Vec<LinuxNamespace>, rlimits: Option<Vec<LinuxRlimit>>) -> Spec {
    Spec {
        linux: Some(Linux { namespaces, resources: Some(LinuxResources::default()) }),
        process: Some(Process { rlimits }),
    }
}

fn position(plan: &[Action], a: Action) -> usize {
    plan.iter().position(|x| *x == a).expect("operation owed by the plan")
}

#[test]
fn missing_linux_section_is_rejected() {
    let spec = Spec { linux: None, process: Some(Process { rlimits: None }) };
    assert_eq!(
        container_intermediate(&spec, false).unwrap_err(),
        ConfigurationError::NoLinux
    );
}

#[test]
fn missing_process_section_is_rejected() {
    let spec = Spec {
        linux: Some(Linux { namespaces: vec![], resources: None }),
        process: None,
    };
    assert_eq!(
        container_intermediate(&spec, false).unwrap_err(),
        ConfigurationError::NoProcess
    );
}

#[test]
fn minimal_plan_is_the_handoff() {
    let spec = spec_with(vec![], None);
    let plan = container_intermediate(&spec, true).expect("a plan is owed");
    assert_eq!(
        plan,
        vec![
            Action::ForkInit,
            Action::CloseInitSender,
            Action::WaitForInitReady,
            Action::SendIntermediateReady,
        ]
    );
}

#[test]
fn user_namespace_entry_precedes_pid_entry() {
    let spec = spec_with(
        vec![
            ns(LinuxNamespaceType::Pid, None),
            ns(LinuxNamespaceType::User, None),
        ],
        None,
    );
    let plan = container_intermediate(&spec, false).expect("a plan is owed");
    let user = position(&plan, Action::EnterNamespace(LinuxNamespaceType::User));
    let pid = position(&plan, Action::EnterNamespace(LinuxNamespaceType::Pid));
    assert!(user < pid);
}

#[test]
fn new_user_namespace_runs_the_mapping_handshake() {
    let spec = spec_with(
        vec![ns(LinuxNamespaceType::User, None)],
        Some(vec![LinuxRlimit { typ: LinuxRlimitType::RlimitNofile, hard: 1024, soft: 256 }]),
    );
    let plan = container_intermediate(&spec, false).expect("a plan is owed");
    assert_eq!(
        plan,
        vec![
            Action::EnterNamespace(LinuxNamespaceType::User),
            Action::SetDumpable(true),
            Action::SendMappingRequest,
            Action::WaitForMappingAck,
            Action::SetDumpable(false),
            Action::SetIdRoot,
            Action::SetRlimit(LinuxRlimit {
                typ: LinuxRlimitType::RlimitNofile,
                hard: 1024,
                soft: 256,
            }),
            Action::ApplyCgroups,
            Action::ForkInit,
            Action::CloseInitSender,
            Action::WaitForInitReady,
            Action::SendIntermediateReady,
        ]
    );
}

#[test]
fn joined_user_namespace_skips_the_handshake() {
    let spec = spec_with(vec![ns(LinuxNamespaceType::User, Some("/proc/1/ns/user"))], None);
    let plan = container_intermediate(&spec, true).expect("a plan is owed");
    assert!(!plan.contains(&Action::WaitForMappingAck));
    assert!(!plan.contains(&Action::SendMappingRequest));
    assert!(plan.contains(&Action::SetIdRoot));
}

#[test]
fn mapping_ack_precedes_rlimits_and_cgroups() {
    let spec = spec_with(
        vec![ns(LinuxNamespaceType::User, None)],
        Some(vec![LinuxRlimit { typ: LinuxRlimitType::RlimitCpu, hard: 9, soft: 9 }]),
    );
    let plan = container_intermediate(&spec, false).expect("a plan is owed");
    let ack = position(&plan, Action::WaitForMappingAck);
    let rlimit = plan
        .iter()
        .position(|a| matches!(a, Action::SetRlimit(_)))
        .expect("rlimit operation owed");
    let cgroups = position(&plan, Action::ApplyCgroups);
    assert!(ack < rlimit);
    assert!(ack < cgroups);
}

#[test]
fn rootless_configuration_skips_cgroups() {
    let spec = spec_with(vec![], None);
    let plan = container_intermediate(&spec, true).expect("a plan is owed");
    assert!(!plan.contains(&Action::ApplyCgroups));
}

#[test]
fn cgroups_precede_the_fork() {
    let spec = spec_with(vec![], None);
    let plan = container_intermediate(&spec, false).expect("a plan is owed");
    let cgroups = position(&plan, Action::ApplyCgroups);
    let fork = position(&plan, Action::ForkInit);
    assert!(cgroups < fork);
}

#[test]
fn init_readiness_precedes_own_readiness() {
    let spec = spec_with(vec![], None);
    let plan = container_intermediate(&spec, false).expect("a plan is owed");
    let wait = position(&plan, Action::WaitForInitReady);
    let send = position(&plan, Action::SendIntermediateReady);
    assert!(wait < send);
}

#[test]
fn duplicate_namespace_kinds_keep_the_first() {
    let spec = spec_with(
        vec![
            ns(LinuxNamespaceType::User, Some("/proc/1/ns/user")),
            ns(LinuxNamespaceType::User, None),
        ],
        None,
    );
    let plan = container_intermediate(&spec, true).expect("a plan is owed");
    // The first descriptor has a path, so no handshake is planned.
    assert!(!plan.contains(&Action::WaitForMappingAck));
}

#[test]
fn rlimits_are_planned_in_declaration_order() {
    let first = LinuxRlimit { typ: LinuxRlimitType::RlimitCpu, hard: 1, soft: 1 };
    let second = LinuxRlimit { typ: LinuxRlimitType::RlimitStack, hard: 2, soft: 2 };
    let spec = spec_with(vec![], Some(vec![first, second]));
    let plan = container_intermediate(&spec, true).expect("a plan is owed");
    let i = position(&plan, Action::SetRlimit(first));
    let j = position(&plan, Action::SetRlimit(second));
    assert!(i < j);
}

#[test]
fn failed_handshake_owes_a_dumpability_revert() {
    let spec = spec_with(vec![ns(LinuxNamespaceType::User, None)], None);
    let plan = container_intermediate(&spec, false).expect("a plan is owed");
    // The raise completes with the second operation, the revert with the
    // fifth: a failure anywhere in between leaves the flag raised.
    for failed in [2usize, 3, 4] {
        assert_eq!(failure_cleanup(&plan, failed), vec![Action::SetDumpable(false)]);
    }
    for failed in [0usize, 1, 5, plan.len()] {
        assert!(failure_cleanup(&plan, failed).is_empty());
    }
}

#[test]
fn no_cleanup_without_a_new_user_namespace() {
    let spec = spec_with(vec![ns(LinuxNamespaceType::User, Some("/proc/1/ns/user"))], None);
    let plan = container_intermediate(&spec, false).expect("a plan is owed");
    for failed in 0..=plan.len() {
        assert!(failure_cleanup(&plan, failed).is_empty());
    }
}

#[test]
fn failure_kinds_follow_the_taxonomy() {
    assert_eq!(
        failure_kind(Action::EnterNamespace(LinuxNamespaceType::Pid)),
        StageFailureKind::Namespace(LinuxNamespaceType::Pid)
    );
    assert_eq!(failure_kind(Action::SetDumpable(true)), StageFailureKind::Privilege);
    assert_eq!(failure_kind(Action::SetIdRoot), StageFailureKind::Privilege);
    assert_eq!(
        failure_kind(Action::SetRlimit(LinuxRlimit {
            typ: LinuxRlimitType::RlimitCpu,
            hard: 0,
            soft: 0,
        })),
        StageFailureKind::ResourceLimit
    );
    assert_eq!(failure_kind(Action::ApplyCgroups), StageFailureKind::Cgroup);
    assert_eq!(failure_kind(Action::ForkInit), StageFailureKind::Fork);
    assert_eq!(failure_kind(Action::WaitForMappingAck), StageFailureKind::Channel);
    assert_eq!(failure_kind(Action::SendIntermediateReady), StageFailureKind::Channel);
}
