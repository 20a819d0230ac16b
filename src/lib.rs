//! Audit rule engine of an intercepting HTTP proxy. A rule watches parts of
//! a captured request, changes them with payloads, has the mutated requests
//! sent, finds conditions over the responses with a small expression
//! language, and gets evidence out of them. This crate holds the rule model,
//! its check-up, the expression language, references into captured traffic,
//! the per-pair execution context and the rule driver, and the key handling
//! of the terminal UI.

pub mod text;
pub mod value;
pub mod operation;
pub mod http;
pub mod error;
pub mod reference;
pub mod render;
pub mod find;
pub mod context;
pub mod get;
pub mod rule_actions;
pub mod message;
pub mod rule;
pub mod laws;
pub mod ui_events;
