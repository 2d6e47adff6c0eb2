//! Plain-data model of the parts of the container configuration that the
//! process-creation core reads: the namespace list, the resource limits of
//! the process section, and the resource section handed to the cgroup
//! controllers.  Parsing and validation of the full configuration happen
//! outside this crate; the driver converts the parsed form into these types.

use vstd::prelude::*;

verus! {

/// The kinds of Linux namespace a container configuration may request.
#[derive(Clone, Copy, Debug, PartialEq, Eq, Structural)]
pub enum LinuxNamespaceType {
    Mount,
    Cgroup,
    Uts,
    Ipc,
    User,
    Pid,
    Network,
}

/// One requested namespace: its kind, and an optional path to an existing
/// namespace to join instead of creating a new one.
#[derive(Clone, Debug)]
pub struct LinuxNamespace {
    pub typ: LinuxNamespaceType,
    pub path: Option<String>,
}

impl LinuxNamespace {
    /// An explicit copy whose value is known to equal the original.
    pub fn duplicate(&self) -> (r: LinuxNamespace)
        ensures
            r == *self,
    {
        LinuxNamespace { typ: self.typ, path: self.path.clone() }
    }
}

/// The resource-limit kinds of the process section.
#[derive(Clone, Copy, Debug, PartialEq, Eq, Structural)]
pub enum LinuxRlimitType {
    RlimitCpu,
    RlimitFsize,
    RlimitData,
    RlimitStack,
    RlimitCore,
    RlimitRss,
    RlimitNproc,
    RlimitNofile,
    RlimitMemlock,
    RlimitAs,
    RlimitLocks,
    RlimitSigpending,
    RlimitMsgqueue,
    RlimitNice,
    RlimitRtprio,
    RlimitRttime,
}

/// One resource-limit entry of the process section.
#[derive(Clone, Copy, Debug, PartialEq, Eq, Structural)]
pub struct LinuxRlimit {
    pub typ: LinuxRlimitType,
    pub hard: u64,
    pub soft: u64,
}

/// Priority assigned to a named network interface.
#[derive(Clone, Debug)]
pub struct LinuxInterfacePriority {
    pub name: String,
    pub priority: u32,
}

/// The mathematical value of an interface priority.
pub ghost struct InterfacePriorityView {
    pub name: Seq<char>,
    pub priority: u32,
}

impl View for LinuxInterfacePriority {
    type V = InterfacePriorityView;

    open spec fn view(&self) -> InterfacePriorityView {
        InterfacePriorityView { name: self.name@, priority: self.priority }
    }
}

/// Network classification and priority configuration.
#[derive(Clone, Debug)]
pub struct LinuxNetwork {
    pub class_id: Option<u32>,
    pub priorities: Vec<LinuxInterfacePriority>,
}

/// The mathematical value of a network section.
pub ghost struct NetworkView {
    pub class_id: Option<u32>,
    pub priorities: Seq<InterfacePriorityView>,
}

impl View for LinuxNetwork {
    type V = NetworkView;

    open spec fn view(&self) -> NetworkView {
        NetworkView {
            class_id: self.class_id,
            priorities: self.priorities@.map_values(|p: LinuxInterfacePriority| p@),
        }
    }
}

/// The resource section of the configuration, reduced to what the cgroup
/// controllers of this crate read.
#[derive(Clone, Debug)]
pub struct LinuxResources {
    pub network: Option<LinuxNetwork>,
}

/// The mathematical value of a resource section.
pub ghost struct ResourcesView {
    pub network: Option<NetworkView>,
}

impl View for LinuxResources {
    type V = ResourcesView;

    open spec fn view(&self) -> ResourcesView {
        ResourcesView {
            network: match self.network {
                None => None,
                Some(network) => Some(network@),
            },
        }
    }
}

impl Default for LinuxResources {
    /// A resource section that configures nothing.
    fn default() -> (r: LinuxResources)
        ensures
            r.network is None,
    {
        LinuxResources { network: None }
    }
}

/// The platform-specific section of the configuration.
#[derive(Clone, Debug)]
pub struct Linux {
    pub namespaces: Vec<LinuxNamespace>,
    pub resources: Option<LinuxResources>,
}

/// The process section of the configuration.
#[derive(Clone, Debug)]
pub struct Process {
    pub rlimits: Option<Vec<LinuxRlimit>>,
}

/// The container configuration as this core sees it.  Either section may be
/// absent, which the stage logic reports as a configuration error.
#[derive(Clone, Debug)]
pub struct Spec {
    pub linux: Option<Linux>,
    pub process: Option<Process>,
}

} // verus!
