//! The expansion of project templates.
pub mod variables;
pub mod tags;
pub mod ignore;
pub mod kebab;
pub mod words;
pub mod values;
pub mod fill;
pub mod weight;
pub mod shape;
pub mod lists;
pub mod tame;
pub mod reading;
pub mod references;
pub mod expand;
pub mod filling;
pub mod project;
pub mod layout;
