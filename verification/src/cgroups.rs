//! The cgroup gateway: registers the current process with the resource
//! hierarchy and, only for the container's first start, applies resource
//! limits.  The hierarchy itself is an external capability reached through
//! the [`CgroupManager`] trait; this module decides when each of its two
//! operations is invoked and with exactly which configuration.

use vstd::prelude::*;

use crate::config::{LinuxResources, ResourcesView};

verus! {

/// A failure of the cgroup gateway.
#[derive(Clone, Copy, Debug, PartialEq, Eq, Structural)]
pub enum CgroupError {
    /// The current process could not be looked up.
    ProcessLookup,
    /// The manager failed to register a task.
    AddTask,
    /// The manager failed to apply resource limits.
    Apply,
}

/// Desired freezer state of a cgroup.
#[derive(Clone, Copy, Debug, PartialEq, Eq, Structural)]
pub enum FreezerState {
    Undefined,
    Frozen,
    Thawed,
}

/// The transient value handed to the cgroup manager and its controllers at
/// the point of limit application.  Built fresh, never mutated.
pub struct ControllerOpt<'a> {
    pub resources: &'a LinuxResources,
    pub freezer_state: Option<FreezerState>,
    pub oom_score_adj: Option<i32>,
    pub disable_oom_killer: bool,
}

/// The record of one limit application: exactly the configuration a
/// manager's apply operation received.
pub ghost struct AppliedConfig {
    pub resources: ResourcesView,
    pub freezer_state: Option<FreezerState>,
    pub oom_score_adj: Option<i32>,
    pub disable_oom_killer: bool,
}

/// The record of an apply call that received `controller_opt`.
pub open spec fn opt_record(controller_opt: ControllerOpt<'_>) -> AppliedConfig {
    AppliedConfig {
        resources: controller_opt.resources@,
        freezer_state: controller_opt.freezer_state,
        oom_score_adj: controller_opt.oom_score_adj,
        disable_oom_killer: controller_opt.disable_oom_killer,
    }
}

/// The one configuration the gateway ever applies: the declared resources,
/// no freezer-state change, no OOM-score adjustment, and the OOM killer
/// left enabled.
pub open spec fn gateway_record(resources: LinuxResources) -> AppliedConfig {
    AppliedConfig {
        resources: resources@,
        freezer_state: None,
        oom_score_adj: None,
        disable_oom_killer: false,
    }
}

/// The capability through which the gateway reaches the resource-control
/// hierarchy.  Concrete managers live outside this crate and implement the
/// two operations; their recorded effect is modelled by the two spec
/// functions, against which this crate's callers are verified.  A failed
/// operation records nothing.
pub trait CgroupManager: Sized {
    /// The process ids registered so far, in registration order.
    spec fn tasks(&self) -> Seq<int>;

    /// The configurations applied so far, in application order.
    spec fn applied(&self) -> Seq<AppliedConfig>;

    /// Registers a process with the hierarchy.  Registration never applies
    /// limits; on success exactly the given id is appended, on failure the
    /// registered tasks are unchanged.
    fn add_task(&mut self, pid: i32) -> (r: Result<(), CgroupError>)
        ensures
            final(self).applied() == old(self).applied(),
            r is Ok ==> final(self).tasks() == old(self).tasks().push(pid as int),
            r is Err ==> final(self).tasks() == old(self).tasks(),
    ;

    /// Applies resource configuration across the relevant controllers.
    /// Application never registers a task; on success exactly the received
    /// configuration is recorded, on failure nothing is.
    fn apply(&mut self, controller_opt: &ControllerOpt<'_>) -> (r: Result<(), CgroupError>)
        ensures
            final(self).tasks() == old(self).tasks(),
            r is Ok ==> final(self).applied() == old(self).applied().push(
                opt_record(*controller_opt),
            ),
            r is Err ==> final(self).applied() == old(self).applied(),
    ;
}

/// Relies on procfs::process::Process::myself, which reads the current
/// process's entry under /proc/self; the returned id is whatever the kernel
/// reports for this process.
#[verifier::external_body]
fn current_pid() -> (r: Result<i32, CgroupError>) {
    match procfs::process::Process::myself() {
        Ok(p) => Ok(p.pid),
        Err(_) => Err(CgroupError::ProcessLookup),
    }
}

/// Registers the process `pid` with the hierarchy and applies resource
/// limits exactly when limits are declared and this is the container's
/// first ("init") start.  A tenant start joins the existing cgroup without
/// re-applying limits; an init start without declared limits applies
/// nothing.  On every outcome: at most the one registration of `pid`, and
/// at most one limit application, of exactly the declared resources with
/// no freezer change, no OOM-score adjustment, and the OOM killer enabled;
/// a failed registration, or any failure at all, applies no limits.
pub fn apply_cgroups_for_task<C: CgroupManager>(
    cmanager: &mut C,
    pid: i32,
    resources: Option<&LinuxResources>,
    init: bool,
) -> (r: Result<(), CgroupError>)
    ensures
        r is Ok ==> final(cmanager).tasks() == old(cmanager).tasks().push(pid as int),
        r is Err ==> final(cmanager).tasks() == old(cmanager).tasks() || final(cmanager).tasks()
            == old(cmanager).tasks().push(pid as int),
        resources matches Some(res) ==> init ==> r is Ok ==> final(cmanager).applied() == old(
            cmanager,
        ).applied().push(gateway_record(*res)),
        r is Err ==> final(cmanager).applied() == old(cmanager).applied(),
        !(resources is Some && init) ==> final(cmanager).applied() == old(cmanager).applied(),
{
    match cmanager.add_task(pid) {
        Ok(_) => (),
        Err(e) => {
            return Err(e);
        },
    }

    if resources.is_some() && init {
        let controller_opt = ControllerOpt {
            resources: resources.unwrap(),
            freezer_state: None,
            oom_score_adj: None,
            disable_oom_killer: false,
        };

        match cmanager.apply(&controller_opt) {
            Ok(_) => (),
            Err(e) => {
                return Err(e);
            },
        }
    }

    Ok(())
}

/// Looks the current process up and registers it with the hierarchy, then
/// applies limits under the same condition as [`apply_cgroups_for_task`]:
/// on success exactly one registration of the current process id, and a
/// limit application — of exactly the declared resources — if and only if
/// limits are declared and this is the init start; on failure no limit
/// application at all.
pub fn apply_cgroups<C: CgroupManager>(
    cmanager: &mut C,
    resources: Option<&LinuxResources>,
    init: bool,
) -> (r: Result<(), CgroupError>)
    ensures
        r is Ok ==> exists|pid: int|
            final(cmanager).tasks() == old(cmanager).tasks().push(pid),
        r is Err ==> final(cmanager).tasks() == old(cmanager).tasks() || exists|pid: int|
            final(cmanager).tasks() == old(cmanager).tasks().push(pid),
        resources matches Some(res) ==> init ==> r is Ok ==> final(cmanager).applied() == old(
            cmanager,
        ).applied().push(gateway_record(*res)),
        r is Err ==> final(cmanager).applied() == old(cmanager).applied(),
        !(resources is Some && init) ==> final(cmanager).applied() == old(cmanager).applied(),
{
    let pid = match current_pid() {
        Ok(p) => p,
        Err(e) => {
            return Err(e);
        },
    };
    let r = apply_cgroups_for_task(cmanager, pid, resources, init);
    proof {
        if r is Ok {
            assert(final(cmanager).tasks() == old(cmanager).tasks().push(pid as int));
        } else {
            assert(final(cmanager).tasks() == old(cmanager).tasks() || final(cmanager).tasks()
                == old(cmanager).tasks().push(pid as int));
        }
    }
    r
}

/// A recording manager: it performs no system work, only records the
/// registrations and limit applications it was asked for, so that the
/// gateway's behaviour can be observed.
pub struct TestManager {
    add_task_args: Vec<i32>,
    apply_calls: Vec<Ghost<AppliedConfig>>,
}

impl TestManager {
    /// A fresh manager that has recorded nothing.
    pub fn new() -> (r: TestManager)
        ensures
            r.tasks() == Seq::<int>::empty(),
            r.applied() == Seq::<AppliedConfig>::empty(),
    {
        let r = TestManager { add_task_args: Vec::new(), apply_calls: Vec::new() };
        proof {
            assert(r.applied() =~= Seq::<AppliedConfig>::empty());
        }
        r
    }

    /// The process ids whose registration was requested, in order.
    pub fn get_add_task_args(&self) -> (r: &Vec<i32>)
        ensures
            r@.map_values(|p: i32| p as int) == self.tasks(),
    {
        &self.add_task_args
    }

    /// Whether a limit application was requested.
    pub fn apply_called(&self) -> (r: bool)
        ensures
            r == (self.applied().len() > 0),
    {
        !self.apply_calls.is_empty()
    }
}

impl Default for TestManager {
    /// A fresh manager that has recorded nothing.
    fn default() -> (r: TestManager)
        ensures
            r.tasks() == Seq::<int>::empty(),
            r.applied() == Seq::<AppliedConfig>::empty(),
    {
        TestManager::new()
    }
}

impl CgroupManager for TestManager {
    closed spec fn tasks(&self) -> Seq<int> {
        self.add_task_args@.map_values(|p: i32| p as int)
    }

    closed spec fn applied(&self) -> Seq<AppliedConfig> {
        self.apply_calls@.map_values(|g: Ghost<AppliedConfig>| g@)
    }

    fn add_task(&mut self, pid: i32) -> (r: Result<(), CgroupError>)
        ensures
            r is Ok,
    {
        self.add_task_args.push(pid);
        proof {
            assert(self.add_task_args@.map_values(|p: i32| p as int) =~= old(
                self,
            ).add_task_args@.map_values(|p: i32| p as int).push(pid as int));
            assert(self.apply_calls@.map_values(|g: Ghost<AppliedConfig>| g@) =~= old(
                self,
            ).apply_calls@.map_values(|g: Ghost<AppliedConfig>| g@));
        }
        Ok(())
    }

    fn apply(&mut self, controller_opt: &ControllerOpt<'_>) -> (r: Result<(), CgroupError>)
        ensures
            r is Ok,
    {
        let record: Ghost<AppliedConfig> = Ghost(opt_record(*controller_opt));
        self.apply_calls.push(record);
        proof {
            assert(self.apply_calls@.map_values(|g: Ghost<AppliedConfig>| g@) =~= old(
                self,
            ).apply_calls@.map_values(|g: Ghost<AppliedConfig>| g@).push(
                opt_record(*controller_opt),
            ));
            assert(self.add_task_args@.map_values(|p: i32| p as int) =~= old(
                self,
            ).add_task_args@.map_values(|p: i32| p as int));
        }
        Ok(())
    }
}

} // verus!

