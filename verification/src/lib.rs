//! A small registry of named meetings and the command dispatcher that drives it.
//!
//! The crate holds the rules only: which request an argument list stands for,
//! what a request does to the registry, and what is to be shown, stored or
//! launched afterwards. Reading and writing the registry file and starting the
//! conferencing client are left to the caller.

pub mod command;
pub mod digits;
pub mod dispatch;
pub mod laws;
pub mod report;
pub mod store;
pub mod text;
