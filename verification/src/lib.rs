//! A small library for switching the active identity of a version-control
//! tool: it models a persisted list of name/email identities together with
//! the indices of the current and the previous one, and the operations that
//! look identities up, list them, switch between them and encode the whole
//! record as a text document.

pub mod chars;
pub mod cli;
pub mod codec;
pub mod config;
pub mod dec;
pub mod errors;
pub mod git;
pub mod switch;
