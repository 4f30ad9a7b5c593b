//! Verified core of a network device monitoring tool.
use vstd::prelude::*;

pub mod ai;
pub mod crypto;
pub mod db;
pub mod error;
pub mod export;
pub mod models;
pub mod net;
pub mod scheduler;
pub mod services;
pub mod ssh;
pub mod text;

verus! {
} // verus!
