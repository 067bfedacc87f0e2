//! A hierarchical, priority-ordered permission engine.
//!
//! Permissions are dot-segmented strings such as `class.view`. A policy is a
//! set of nodes, each pairing a pattern (whose segments are literals or the
//! one-segment wildcard `*`) with an allow/deny value and a priority. Nodes
//! are owned either by a role or by a single principal; resolution merges the
//! two collections and lets the highest priority win. Bulk provisioning
//! documents and resource-scoped grants write into the same store through
//! idempotent single-key upserts.

pub mod ai_text;
pub mod api_types;
pub mod catalog;
pub mod config;
pub mod identity;
pub mod manager;
pub mod models;
pub mod node;
pub mod pattern;
pub mod plugin;
pub mod plugins;
pub mod resolver;
pub mod roles;
pub mod scoped;
pub mod store;
pub mod template;
pub mod text;
