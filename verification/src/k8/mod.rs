//! The Kubernetes objects that make up a group of stream processing units.
pub mod objects;
pub mod statefulset;
pub mod group;
pub mod set_controller;
pub mod scale;
pub mod service;
pub mod ingress;
pub mod spu_service;
pub mod service_controller;
pub mod spu_object;
pub mod spu_controller;
pub mod spg_group;
pub mod fit;
pub mod set_document;
pub mod unit_document;
