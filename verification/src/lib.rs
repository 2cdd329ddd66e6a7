//! Decision logic of the Agent Steward task data centre.
use vstd::prelude::*;

pub mod digest;
pub mod doctor;
pub mod error;
pub mod hooks;
pub mod host_context;
pub mod host_evidence;
pub mod migration;
pub mod outcome;
pub mod path_safety;
pub mod permissions;
pub mod projects;
pub mod reference;
pub mod rules;
pub mod service;
pub mod sessions;
pub mod status;
pub mod task_list;
pub mod task_patch;
pub mod text;
pub mod title;

verus! {
} // verus!
