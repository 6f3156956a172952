//! Conventional commit messages for staged git changes: the settings, what the
//! repository tells, the prompt and the handling of the model's answers, and the
//! course of a run.
use vstd::prelude::*;

pub mod cli;
pub mod config;
pub mod flow;
pub mod git;
pub mod llm;
pub mod text;

verus! {

} // verus!
