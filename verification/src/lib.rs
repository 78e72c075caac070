//! Oqab: a file search engine.
//!
//! A search looks below a root directory for the regular files that a set
//! of predicates accepts. The library decides; whoever uses it reads the
//! file system and hands over what was read, as a snapshot of the tree
//! (`entry`, `walk`, `level_order`, `finder`, `standard_search`) or listing
//! by listing (`session`, `worker`, `traverser`).

pub mod args;
pub mod cli;
pub mod commands;
pub mod config;
pub mod entry;
pub mod factory;
pub mod filters;
pub mod finder;
pub mod fuzzy;
pub mod grep;
pub mod level_order;
pub mod manager;
pub mod observer;
pub mod pattern;
pub mod platform;
pub mod registry;
pub mod seen;
pub mod session;
pub mod size;
pub mod standard_search;
pub mod text;
pub mod traversal;
pub mod traverser;
pub mod walk;
pub mod worker;
