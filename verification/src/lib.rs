//! Capture coverage and history import for a project memory.

pub mod autowire;
pub mod backfill;
pub mod counts;
pub mod coverage;
pub mod delivery;
pub mod doctor;
pub mod events;
pub mod harness;
pub mod hook;
pub mod path_sanitize;
pub mod report;
pub mod sentinel;
pub mod sessions;
pub mod text;
pub mod time;
