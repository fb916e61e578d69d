//! Control-plane logic of a Fluvio cluster.

pub mod cdk;
pub mod choices;
pub mod clear;
pub mod cluster;
pub mod decimal;
pub mod generate;
pub mod health;
pub mod json;
pub mod k8;
pub mod k8_types;
pub mod metadata;
pub mod namespace_gc;
pub mod otel;
pub mod path;
pub mod profile_sync;
pub mod repair;
pub mod repair_index;
pub mod repair_walk;
pub mod smdk;
pub mod spg_status;
pub mod start;
pub mod string_map;
pub mod text;
pub mod text_order;
