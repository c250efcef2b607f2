use vstd::prelude::*;

pub mod conflict;
pub mod creation;
pub mod domain;
pub mod executor;
pub mod list;
pub mod operation_manager;
pub mod paths;
pub mod pdf_engine;
pub mod planner;
pub mod skill_slug;
pub mod text;

verus! {
} // verus!
