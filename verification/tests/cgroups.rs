//! Behaviour of the cgroup gateway, observed through a recording manager.

use youki::cgroups::{apply_cgroups, apply_cgroups_for_task, TestManager};
use youki::config::LinuxResources;

fn my_pid() -> i32 {
    procfs::process::Process::myself()
        .expect("read the current process")
        .pid
}

#[test]
fn apply_cgroup_init() {
    // arrange
    let mut cmanager = TestManager::default();
    let resources = LinuxResources::default();

    // act
    apply_cgroups(&mut cmanager, Some(&resources), true).expect("apply cgroups");

    // assert
    assert!(cmanager.get_add_task_args().len() == 1);
    assert_eq!(cmanager.get_add_task_args()[0], my_pid());
    assert_eq!(cmanager.apply_called(), true);
}

#[test]
fn apply_cgroup_tenant() {
    // arrange
    let mut cmanager = TestManager::default();
    let resources = LinuxResources::default();

    // act
    apply_cgroups(&mut cmanager, Some(&resources), false).expect("apply cgroups");

    // assert
    assert_eq!(cmanager.get_add_task_args()[0], my_pid());
    assert_eq!(cmanager.apply_called(), false);
}

#[test]
fn apply_cgroup_no_resources() {
    // arrange
    let mut cmanager = TestManager::default();

    // act
    apply_cgroups(&mut cmanager, None, true).expect("apply cgroups");

    // assert
    assert_eq!(cmanager.get_add_task_args()[0], my_pid());
    assert_eq!(cmanager.apply_called(), false);
}

#[test]
fn registration_is_recorded_once_per_call() {
    let mut cmanager = TestManager::default();
    apply_cgroups_for_task(&mut cmanager, 42, None, true).expect("apply cgroups");
    apply_cgroups_for_task(&mut cmanager, 43, None, false).expect("apply cgroups");
    assert_eq!(cmanager.get_add_task_args().as_slice(), &[42, 43]);
    assert_eq!(cmanager.apply_called(), false);
}

#[test]
fn limits_applied_only_for_init_with_resources() {
    let resources = LinuxResources::default();

    let mut init_with = TestManager::default();
    apply_cgroups_for_task(&mut init_with, 7, Some(&resources), true).expect("apply cgroups");
    assert_eq!(init_with.apply_called(), true);

    let mut tenant_with = TestManager::default();
    apply_cgroups_for_task(&mut tenant_with, 7, Some(&resources), false).expect("apply cgroups");
    assert_eq!(tenant_with.apply_called(), false);

    let mut init_without = TestManager::default();
    apply_cgroups_for_task(&mut init_without, 7, None, true).expect("apply cgroups");
    assert_eq!(init_without.apply_called(), false);
}
