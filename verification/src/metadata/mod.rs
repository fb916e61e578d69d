//! The storage of metadata objects, in memory and in the cluster.
pub mod convert;
pub mod object;
pub mod memory;
pub mod kube;
