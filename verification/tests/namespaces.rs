//! Behaviour of the namespace manager.

use youki::config::{LinuxNamespace, LinuxNamespaceType};
use youki::namespaces::{entry_mode, NamespaceEntryMode, Namespaces};

fn ns(typ: LinuxNamespaceType, path: Option<&str>) -> LinuxNamespace {
    LinuxNamespace { typ, path: path.map(|p| p.to_string()) }
}

#[test]
fn lookup_by_kind() {
    let list = vec![
        ns(LinuxNamespaceType::Mount, None),
        ns(LinuxNamespaceType::User, None),
        ns(LinuxNamespaceType::Pid, Some("/proc/1/ns/pid")),
    ];
    let namespaces = Namespaces::from_spec(&list);
    assert_eq!(
        namespaces.get(LinuxNamespaceType::User).expect("user namespace held").typ,
        LinuxNamespaceType::User
    );
    assert_eq!(
        namespaces
            .get(LinuxNamespaceType::Pid)
            .expect("pid namespace held")
            .path
            .as_deref(),
        Some("/proc/1/ns/pid")
    );
    assert!(namespaces.get(LinuxNamespaceType::Network).is_none());
}

#[test]
fn duplicate_kinds_keep_the_first() {
    let list = vec![
        ns(LinuxNamespaceType::Uts, Some("/proc/1/ns/uts")),
        ns(LinuxNamespaceType::Uts, None),
    ];
    let namespaces = Namespaces::from_spec(&list);
    assert_eq!(
        namespaces
            .get(LinuxNamespaceType::Uts)
            .expect("uts namespace held")
            .path
            .as_deref(),
        Some("/proc/1/ns/uts")
    );
}

#[test]
fn entry_mode_follows_the_path() {
    assert_eq!(
        entry_mode(&ns(LinuxNamespaceType::Ipc, Some("/proc/1/ns/ipc"))),
        NamespaceEntryMode::Join
    );
    assert_eq!(entry_mode(&ns(LinuxNamespaceType::Ipc, None)), NamespaceEntryMode::Create);
}
