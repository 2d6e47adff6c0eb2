//! Behaviour of the network-classification controller.

use youki::cgroups::{ControllerOpt, TestManager};
use youki::config::{LinuxNetwork, LinuxResources};
use youki::network_classifier::{u32_to_decimal, NetworkClassifier};

#[test]
fn test_apply_network_classifier() {
    let id = 0x100001u32;
    let network = LinuxNetwork { class_id: Some(id), priorities: vec![] };

    let write = NetworkClassifier::apply(&network).expect("apply network classID");

    assert_eq!(id.to_string(), write.contents);
    assert_eq!(write.file_name, "net_cls.classid");
}

#[test]
fn no_write_without_class_id() {
    let network = LinuxNetwork { class_id: None, priorities: vec![] };
    assert!(NetworkClassifier::apply(&network).is_none());
}

#[test]
fn needs_to_handle_without_network_section() {
    let resources = LinuxResources::default();
    let opt = ControllerOpt {
        resources: &resources,
        freezer_state: None,
        oom_score_adj: None,
        disable_oom_killer: false,
    };
    assert!(NetworkClassifier::needs_to_handle(&opt).is_none());
    assert!(NetworkClassifier::apply_controller(&opt).is_none());
}

#[test]
fn needs_to_handle_with_network_section() {
    let resources = LinuxResources {
        network: Some(LinuxNetwork { class_id: Some(5), priorities: vec![] }),
    };
    let opt = ControllerOpt {
        resources: &resources,
        freezer_state: None,
        oom_score_adj: None,
        disable_oom_killer: false,
    };
    assert!(NetworkClassifier::needs_to_handle(&opt).is_some());
    let write = NetworkClassifier::apply_controller(&opt).expect("a write is owed");
    assert_eq!(write.contents, "5");
}

#[test]
fn decimal_formatting() {
    assert_eq!(u32_to_decimal(0), "0");
    assert_eq!(u32_to_decimal(9), "9");
    assert_eq!(u32_to_decimal(10), "10");
    assert_eq!(u32_to_decimal(1048577), "1048577");
    assert_eq!(u32_to_decimal(u32::MAX), "4294967295");
}

#[test]
fn fresh_test_manager_records_nothing() {
    let cmanager = TestManager::new();
    assert!(cmanager.get_add_task_args().is_empty());
    assert!(!cmanager.apply_called());
}
