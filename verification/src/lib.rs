//! Self-Smart: the verified core of a coding agent that talks to a local
//! OpenAI-compatible model server. It keeps the conversation inside a token
//! budget, reads tool calls out of model replies, decides whether a tool may
//! run and counts its runs, and implements the tools' text work (code
//! metrics, documentation outlines, code smells, renames, boilerplate).
use vstd::prelude::*;

pub mod agent;
pub mod config;
pub mod llm;
pub mod path;
pub mod text;
pub mod tools;

verus! {

} // verus!
