//! The clearing of a topic: its data goes, the topic stays.
pub mod wire;
pub mod request;
pub mod handler;
pub mod command;
