//! Core engine of an interactive SSH key manager: it scans a key directory
//! into an inventory of logical key entries, decides whether a selected key
//! is loaded in the running agent, and drives the mutating operations
//! (create, delete, add to agent, remove from agent, copy to clipboard)
//! while keeping an append-only command log.
//!
//! All file system, subprocess, clipboard and terminal work happens outside
//! this crate; the functions here take the results of those calls as plain
//! values and make every decision about them.

pub mod agent;
pub mod controller;
pub mod entry;
pub mod store;
pub mod text;
