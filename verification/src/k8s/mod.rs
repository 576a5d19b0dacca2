//! Kubernetes-side logic: which namespaces are off limits, the commands that
//! inject and revert faults in pods, which pod each fault of a live run hits,
//! which pods a set of services covers and the probes that pods declare.
//! Talking to the cluster is left to the caller.

pub mod fencing;
pub mod cluster;
pub mod discovery;
pub mod fault_ops;
pub mod fault_tracker;
pub mod probe_scraper;
pub mod chaos;
