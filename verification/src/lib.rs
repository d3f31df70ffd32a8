//! Verified core of the RustSync storage synchronisation service: path and
//! text handling, the sync planner, job input validation, scheduling
//! decisions, translations and small security helpers.
use vstd::prelude::*;

pub mod auth;
pub mod config;
pub mod db;
pub mod driver;
pub mod engine;
pub mod exclude;
pub mod files;
pub mod i18n;
pub mod job;
pub mod json;
pub mod models;
pub mod notify;
pub mod order;
pub mod paths;
pub mod runner;
pub mod scheduler;
pub mod sync;
pub mod system;
pub mod text;

verus! {

} // verus!
