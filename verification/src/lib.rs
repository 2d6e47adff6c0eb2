//! Process-creation core of an OCI-compatible container runtime.
//!
//! The library turns a declarative container configuration into the exact,
//! ordered sequence of namespace, privilege, resource-limit and cgroup
//! operations that the intermediate process of the creation pipeline must
//! perform, and it decides how each synchronization message between the
//! pipeline's stages is to be interpreted.  The operations themselves
//! (system calls, channel reads and writes, forking) are performed by an
//! unverified driver around this crate; every decision about *what* to do,
//! *in which order*, and *what each outcome means* is made here.

pub mod cgroups;
pub mod channel;
pub mod config;
pub mod intermediate;
pub mod namespaces;
pub mod network_classifier;
